//! Releases on GitHub, GitLab, Gitea and Forgejo: URLs, metadata checks, asset choice.
use crate::config::{opt_view, strings_view, GlobalConfig};
use crate::resolvers::patterns::{glob_match, glob_pattern_valid, regex_match, regex_valid, GlobMatcher, RegexMatcher};
use crate::resolvers::{dedupe_capabilities, installed_version_is, is_installed_version, RateLimitInfo, CheckResult, UpdateInfo, capability_spec, capability_from_header_value, opt_str};
use crate::state::AppState;
use crate::text::{
    cat, cat3, chars_of, chars_of_string, cres_view, find_char_exec, find_char, first_char_at, is_prefix, lit, lower, push_all,
    replace_all, replace_exec, res_string, res_view, rsplit_once, rsplit_once_exec, split_once,
    split_once_exec, starts_with, string_of, strip_prefix, strip_prefix_exec, trim, trim_end_char,
    trim_end_char_exec, trim_exec, rfind_char, before_char, before_char_exec, eq,
    find_from, first_occurrence_from, occurs_at, is_ws, is_ws_exec, lemma_first_occurrence_unique, slice_copy,
    trim_start_char, trim_start_char_exec, seq_lt, lemma_seq_lt_irreflexive,
};
use vstd::prelude::*;

pub use crate::state::ForgePlatform as ForgeHost;

verus! {

/// A downloadable file of a release.
pub struct ReleaseAsset {
    pub name: String,
    pub download_url: String,
}

/// One entry of a release's asset list, each field present when it is a string.
pub struct ReleaseAssetEntry {
    pub name: Option<String>,
    pub browser_download_url: Option<String>,
    pub direct_asset_url: Option<String>,
    pub url: Option<String>,
}

/// The fields of a release's JSON metadata that the updater reads; a field is present
/// when the JSON holds a string (or an array) there.
pub struct ReleaseMetadata {
    /// `tag_name`
    pub tag_name: Option<String>,
    /// `url`
    pub url: Option<String>,
    /// `html_url`
    pub html_url: Option<String>,
    /// `assets`, when it is an array (GitHub, Gitea, Forgejo)
    pub assets: Option<Vec<ReleaseAssetEntry>>,
    /// `assets.links`, when it is an array (GitLab)
    pub asset_links: Option<Vec<ReleaseAssetEntry>>,
}

/// How a release asset name is selected.
pub enum AssetMatcher {
    Glob(GlobMatcher),
    Regex { pattern: String, regex: RegexMatcher },
}

/// The anchored form under which a configured regular expression is compiled.
pub open spec fn anchored_regex(pattern: Seq<char>) -> Seq<char> {
    "^(?:"@ + pattern + ")$"@
}

/// Whether `m` accepts the asset name `name`.
pub open spec fn matcher_accepts(m: AssetMatcher, name: Seq<char>) -> bool {
    match m {
        AssetMatcher::Glob(g) => glob_match(g.source(), name),
        AssetMatcher::Regex { pattern, regex } => regex_match(regex.source(), name),
    }
}

/// The text describing `m`.
pub open spec fn matcher_text(m: AssetMatcher) -> Seq<char> {
    match m {
        AssetMatcher::Glob(g) => g.source(),
        AssetMatcher::Regex { pattern, regex } => pattern@,
    }
}

/// `m` was compiled from the configured text as `AssetMatcher::from_config` does.
pub open spec fn matcher_from(m: AssetMatcher, asset_match: Seq<char>, regex: Option<Seq<char>>) -> bool {
    match regex {
        Some(r) => m matches AssetMatcher::Regex { pattern, regex: rx } && pattern@ == r
            && rx.source() == anchored_regex(r),
        None => m matches AssetMatcher::Glob(g) && g.source() == asset_match,
    }
}

impl AssetMatcher {
    /// Compiles the configured pattern: the regular expression when there is one,
    /// anchored to the whole name, else the glob.
    pub fn from_config(asset_match: &str, asset_match_regex: Option<&str>, repository: &str) -> (r:
        Result<Self, String>)
        ensures
            r is Ok <==> match asset_match_regex {
                Some(rx) => regex_valid(anchored_regex(rx@)),
                None => glob_pattern_valid(asset_match@),
            },
            r matches Ok(m) ==> matcher_from(m, asset_match@, opt_str(asset_match_regex)),
            r matches Err(e) ==> match asset_match_regex {
                Some(rx) => is_prefix(
                    "Invalid asset_match_regex pattern '"@ + rx@ + "' for "@ + repository@,
                    e@,
                ),
                None => is_prefix(
                    "Invalid asset_match pattern '"@ + asset_match@ + "' for "@ + repository@,
                    e@,
                ),
            },
    {
        match asset_match_regex {
            Some(regex_pattern) => {
                let anchored = cat3(&lit("^(?:"), &chars_of(regex_pattern), &lit(")$"));
                let anchored_s = string_of(&anchored);
                match RegexMatcher::new(anchored_s.as_str()) {
                    Ok(regex) => Ok(AssetMatcher::Regex { pattern: String::from_str(regex_pattern), regex }),
                    Err(e) => {
                        let head = cat(&cat3(&lit("Invalid asset_match_regex pattern '"), &chars_of(regex_pattern), &lit("' for ")), &chars_of(repository));
                        let msg = context_message(&head, &e);
                        assert(msg@.subrange(0, head@.len() as int) =~= head@);
                        Err(msg)
                    },
                }
            },
            None => match GlobMatcher::new(asset_match) {
                Ok(g) => Ok(AssetMatcher::Glob(g)),
                Err(e) => {
                    let head = cat(&cat3(&lit("Invalid asset_match pattern '"), &chars_of(asset_match), &lit("' for ")), &chars_of(repository));
                    let msg = context_message(&head, &e);
                    assert(msg@.subrange(0, head@.len() as int) =~= head@);
                    Err(msg)
                },
            },
        }
    }

    /// The pattern accepts `asset_name`.
    pub fn matches(&self, asset_name: &str) -> (r: bool)
        ensures
            r == matcher_accepts(*self, asset_name@),
    {
        match self {
            AssetMatcher::Glob(g) => g.matches(asset_name),
            AssetMatcher::Regex { regex, .. } => regex.is_match(asset_name),
        }
    }

    /// The configured pattern text.
    pub fn description(&self) -> (r: &str)
        ensures
            r@ == matcher_text(*self),
    {
        match self {
            AssetMatcher::Glob(g) => g.as_str(),
            AssetMatcher::Regex { pattern, .. } => pattern.as_str(),
        }
    }
}

/// `head` followed by `: ` and the underlying error message.
fn context_message(head: &Vec<char>, cause: &String) -> (r: String)
    ensures
        r@ == head@ + ": "@ + cause@,
{
    string_of(&cat3(head, &lit(": "), &chars_of_string(cause)))
}

// ---------------------------------------------------------------------------
// Repository URLs
// ---------------------------------------------------------------------------

/// `scheme://host` of a repository URL.
pub open spec fn origin_spec(r: Seq<char>) -> Result<Seq<char>, Seq<char>> {
    match split_once(r, "://"@) {
        None => Err("Repository URL did not contain a scheme"@),
        Some((scheme, rest)) => match split_once(rest, "/"@) {
            None => Err("Repository URL did not contain a repository path"@),
            Some((host, _)) => Ok(scheme + "://"@ + host),
        },
    }
}

/// The path of a repository URL, without trailing slashes.
pub open spec fn path_spec(r: Seq<char>) -> Result<Seq<char>, Seq<char>> {
    match split_once(r, "://"@) {
        None => Err("Repository URL did not contain a scheme"@),
        Some((_, rest)) => match split_once(rest, "/"@) {
            None => Err("Repository URL did not contain a repository path"@),
            Some((_, path)) => {
                let p = trim_end_char(path, '/');
                if p.len() == 0 {
                    Err("Repository URL did not contain an account and repository: "@ + r)
                } else {
                    Ok(p)
                }
            },
        },
    }
}

/// The host of a repository URL.
pub open spec fn host_spec(r: Seq<char>) -> Result<Seq<char>, Seq<char>> {
    match split_once(r, "://"@) {
        None => Err("Repository URL did not contain a scheme"@),
        Some((_, rest)) => match split_once(rest, "/"@) {
            None => Err("Repository URL did not contain a repository path"@),
            Some((host, _)) => Ok(host),
        },
    }
}

fn origin_chars(r: &[char]) -> (o: Result<Vec<char>, Vec<char>>)
    ensures
        cres_view(o) == origin_spec(r@),
{
    proof {
        reveal_strlit("://");
        reveal_strlit("/");
    }
    match split_once_exec(r, &lit("://")) {
        None => Err(lit("Repository URL did not contain a scheme")),
        Some((scheme, rest)) => match split_once_exec(&rest, &lit("/")) {
            None => Err(lit("Repository URL did not contain a repository path")),
            Some((host, _)) => Ok(cat3(&scheme, &lit("://"), &host)),
        },
    }
}

fn path_chars(r: &[char]) -> (o: Result<Vec<char>, Vec<char>>)
    ensures
        cres_view(o) == path_spec(r@),
{
    match split_once_exec(r, &lit("://")) {
        None => Err(lit("Repository URL did not contain a scheme")),
        Some((_, rest)) => match split_once_exec(&rest, &lit("/")) {
            None => Err(lit("Repository URL did not contain a repository path")),
            Some((_, path)) => {
                let p = trim_end_char_exec(&path, '/');
                if p.len() == 0 {
                    Err(cat(&lit("Repository URL did not contain an account and repository: "), r))
                } else {
                    Ok(p)
                }
            },
        },
    }
}

fn host_chars(r: &[char]) -> (o: Result<Vec<char>, Vec<char>>)
    ensures
        cres_view(o) == host_spec(r@),
{
    match split_once_exec(r, &lit("://")) {
        None => Err(lit("Repository URL did not contain a scheme")),
        Some((_, rest)) => match split_once_exec(&rest, &lit("/")) {
            None => Err(lit("Repository URL did not contain a repository path")),
            Some((host, _)) => Ok(host),
        },
    }
}

/// `scheme://host` of a repository URL.
pub fn repository_origin(repository: &str) -> (o: Result<String, String>)
    ensures
        res_view(o) == origin_spec(repository@),
{
    res_string(origin_chars(&chars_of(repository)))
}

/// The path of a repository URL, such as `owner/repo`.
pub fn repository_path(repository: &str) -> (o: Result<String, String>)
    ensures
        res_view(o) == path_spec(repository@),
{
    res_string(path_chars(&chars_of(repository)))
}

/// The host of a repository URL.
pub fn repository_host(repository: &str) -> (o: Result<String, String>)
    ensures
        res_view(o) == host_spec(repository@),
{
    res_string(host_chars(&chars_of(repository)))
}

/// The platform recorded for `repository` in the cached state.
pub open spec fn cached_platform_spec(state: Option<AppState>, repository: Seq<char>) -> Option<ForgeHost> {
    match state {
        Some(s) => if opt_view(s.forge_repository) == Some(repository) {
            s.forge_platform
        } else {
            None
        },
        None => None,
    }
}

/// The platform cached for this very repository, if any.
pub fn cached_forge_platform(state: Option<&AppState>, repository: &str) -> (r: Option<ForgeHost>)
    ensures
        r == cached_platform_spec(match state { Some(s) => Some(*s), None => None }, repository@),
{
    match state {
        Some(s) => match &s.forge_repository {
            Some(repo) => if eq(&chars_of_string(repo), &chars_of(repository)) {
                s.forge_platform
            } else {
                None
            },
            None => None,
        },
        None => None,
    }
}

/// The platform named by a swagger `info.title`.
pub open spec fn platform_for_title(title: Seq<char>) -> Option<ForgeHost> {
    let t = trim(title);
    if t == "Gitea API"@ {
        Some(ForgeHost::Gitea)
    } else if t == "Forgejo API"@ {
        Some(ForgeHost::Forgejo)
    } else if t == "GitHub API"@ {
        Some(ForgeHost::GitHub)
    } else if t == "GitLab API"@ {
        Some(ForgeHost::GitLab)
    } else {
        None
    }
}

/// Maps the title of a forge's API description to its platform.
pub fn forge_platform_from_swagger_title(title: &str) -> (r: Option<ForgeHost>)
    ensures
        r == platform_for_title(title@),
{
    let t = trim_exec(&chars_of(title));
    if eq(&t, &lit("Gitea API")) {
        Some(ForgeHost::Gitea)
    } else if eq(&t, &lit("Forgejo API")) {
        Some(ForgeHost::Forgejo)
    } else if eq(&t, &lit("GitHub API")) {
        Some(ForgeHost::GitHub)
    } else if eq(&t, &lit("GitLab API")) {
        Some(ForgeHost::GitLab)
    } else {
        None
    }
}

/// The platform known without asking the forge: from the cache, or from the
/// well-known hosts `github.com` and `gitlab.com`; `Ok(None)` when the forge
/// must be asked.
pub open spec fn known_platform_spec(state: Option<AppState>, repository: Seq<char>) -> Result<Option<ForgeHost>, Seq<char>> {
    match cached_platform_spec(state, repository) {
        Some(p) => Ok(Some(p)),
        None => match host_spec(repository) {
            Err(e) => Err(e),
            Ok(h) => if h == "github.com"@ {
                Ok(Some(ForgeHost::GitHub))
            } else if h == "gitlab.com"@ {
                Ok(Some(ForgeHost::GitLab))
            } else {
                Ok(None)
            },
        },
    }
}

/// `github.com` and `gitlab.com` are known without asking the forge: a repository on
/// one of them, with no platform cached for it, is GitHub or GitLab, and an
/// `https://github.com/...` or `https://gitlab.com/...` address is on that host,
/// whatever path follows. A platform cached for the very repository is taken as it
/// is; any other host has to be asked.
pub proof fn law_well_known_hosts(state: Option<AppState>, repository: Seq<char>, path: Seq<char>)
    ensures
        cached_platform_spec(state, repository) is None && host_spec(repository) == Ok::<Seq<char>, Seq<char>>("gitlab.com"@)
            ==> known_platform_spec(state, repository) == Ok::<Option<ForgeHost>, Seq<char>>(Some(ForgeHost::GitLab)),
        cached_platform_spec(state, repository) is None && host_spec(repository) == Ok::<Seq<char>, Seq<char>>("github.com"@)
            ==> known_platform_spec(state, repository) == Ok::<Option<ForgeHost>, Seq<char>>(Some(ForgeHost::GitHub)),
        host_spec("https://gitlab.com/"@ + path) == Ok::<Seq<char>, Seq<char>>("gitlab.com"@),
        host_spec("https://github.com/"@ + path) == Ok::<Seq<char>, Seq<char>>("github.com"@),
        known_platform_spec(None, "https://gitlab.com/"@ + path) == Ok::<Option<ForgeHost>, Seq<char>>(Some(ForgeHost::GitLab)),
        known_platform_spec(None, "https://github.com/"@ + path) == Ok::<Option<ForgeHost>, Seq<char>>(Some(ForgeHost::GitHub)),
        cached_platform_spec(state, repository) matches Some(p)
            ==> known_platform_spec(state, repository) == Ok::<Option<ForgeHost>, Seq<char>>(Some(p)),
        cached_platform_spec(state, repository) is None ==> (host_spec(repository) matches Ok(h)
            ==> (h != "github.com"@ && h != "gitlab.com"@ <==> known_platform_spec(state, repository) == Ok::<Option<ForgeHost>, Seq<char>>(None))),
{
    reveal_strlit("gitlab.com");
    reveal_strlit("github.com");
    reveal_strlit("https://gitlab.com/");
    reveal_strlit("https://github.com/");
    reveal_strlit("https://");
    reveal_strlit("/");
    assert("gitlab.com"@[3] != "github.com"@[3]);
    assert("https://gitlab.com/"@ + path =~= "https://"@ + "gitlab.com"@ + "/"@ + path);
    assert("https://github.com/"@ + path =~= "https://"@ + "github.com"@ + "/"@ + path);
    lemma_https_host("gitlab.com"@, path);
    lemma_https_host("github.com"@, path);
}

/// The host of `https://` + `host` + `/` + `path` is `host`, for a host without `:` or `/`.
proof fn lemma_https_host(host: Seq<char>, path: Seq<char>)
    requires
        host == "gitlab.com"@ || host == "github.com"@,
    ensures
        host_spec("https://"@ + host + "/"@ + path) == Ok::<Seq<char>, Seq<char>>(host),
{
    reveal_strlit("https://");
    reveal_strlit("https");
    reveal_strlit("://");
    reveal_strlit("/");
    reveal_strlit("gitlab.com");
    reveal_strlit("github.com");
    assert("https://"@ =~= "https"@ + "://"@);
    let rest = host + "/"@ + path;
    assert("https://"@ + host + "/"@ + path =~= "https"@ + "://"@ + rest);
    lemma_split_once_first("https"@, "://"@, rest);
    lemma_split_once_first(host, "/"@, path);
}

/// `a` + `sep` + `b` splits at the `sep` after `a` when no character of `a` starts `sep`.
proof fn lemma_split_once_first(a: Seq<char>, sep: Seq<char>, b: Seq<char>)
    requires
        sep.len() > 0,
        forall|k: int| 0 <= k < a.len() ==> a[k] != sep[0],
    ensures
        split_once(a + sep + b, sep) == Some((a, b)),
{
    let s = a + sep + b;
    let n = a.len() as int;
    assert(s.subrange(n, n + sep.len()) =~= sep);
    assert forall|j: int| 0 <= j < n implies !occurs_at(s, sep, j) by {
        if occurs_at(s, sep, j) {
            assert(s.subrange(j, j + sep.len())[0] == sep[0]);
            assert(s[j] == a[j]);
        }
    }
    assert(first_occurrence_from(s, sep, 0, n));
    let i = choose|i: int| first_occurrence_from(s, sep, 0, i);
    lemma_first_occurrence_unique(s, sep, 0, i, n);
    assert(s.take(n) =~= a);
    assert(s.skip(n + sep.len()) =~= b);
}

/// The platform known without a network request (see [`known_platform_spec`]).
pub fn known_forge_platform(state: Option<&AppState>, repository: &str) -> (r: Result<Option<ForgeHost>, String>)
    ensures
        match known_platform_spec(match state { Some(s) => Some(*s), None => None }, repository@) {
            Ok(p) => r == Ok::<Option<ForgeHost>, String>(p),
            Err(e) => r matches Err(m) && m@ == e,
        },
{
    match cached_forge_platform(state, repository) {
        Some(p) => Ok(Some(p)),
        None => match host_chars(&chars_of(repository)) {
            Err(e) => Err(string_of(&e)),
            Ok(h) => if eq(&h, &lit("github.com")) {
                Ok(Some(ForgeHost::GitHub))
            } else if eq(&h, &lit("gitlab.com")) {
                Ok(Some(ForgeHost::GitLab))
            } else {
                Ok(None)
            },
        },
    }
}

/// The display name of a platform.
pub open spec fn host_name_spec(host: ForgeHost) -> Seq<char> {
    match host {
        ForgeHost::GitHub => "GitHub"@,
        ForgeHost::GitLab => "GitLab"@,
        ForgeHost::Gitea => "Gitea"@,
        ForgeHost::Forgejo => "Forgejo"@,
    }
}

/// The display name of a platform.
pub fn host_name(host: ForgeHost) -> (r: &'static str)
    ensures
        r@ == host_name_spec(host),
{
    match host {
        ForgeHost::GitHub => "GitHub",
        ForgeHost::GitLab => "GitLab",
        ForgeHost::Gitea => "Gitea",
        ForgeHost::Forgejo => "Forgejo",
    }
}

/// The parts of a repository path that URL templates can use.
pub struct ForgeRepoInfo {
    pub account: String,
    pub repository: String,
    pub repo_path: String,
    pub project_path: String,
}

/// The part after the last `c`, or all of `s`.
pub open spec fn after_last_char(s: Seq<char>, c: char) -> Seq<char> {
    if exists|i: int| 0 <= i < s.len() && s[i] == c && forall|j: int| i < j < s.len() ==> s[j] != c {
        let i = choose|i: int| 0 <= i < s.len() && s[i] == c && forall|j: int| i < j < s.len() ==> s[j] != c;
        s.skip(i + 1)
    } else {
        s
    }
}

fn after_last_char_exec(s: &[char], c: char) -> (r: Vec<char>)
    ensures
        r@ == after_last_char(s@, c),
{
    match rfind_char(s, c) {
        Some(i) => {
            proof {
                let k = choose|k: int| 0 <= k < s@.len() && s@[k] == c && forall|j: int| k < j < s@.len() ==> s@[j] != c;
                if k < i {
                } else if k > i {
                }
                assert(k == i);
            }
            crate::text::slice_copy(s, i + 1, s.len())
        },
        None => crate::text::slice_copy(s, 0, s.len()),
    }
}

/// `repo_path` with every `/` written `%2F`.
pub open spec fn encoded_path(p: Seq<char>) -> Seq<char> {
    replace_all(p, "/"@, "%2F"@)
}

/// The template fields of a repository, as views: account, repository, path, project path.
pub open spec fn repo_info_spec(r: Seq<char>) -> Result<(Seq<char>, Seq<char>, Seq<char>, Seq<char>), Seq<char>> {
    match path_spec(r) {
        Err(e) => Err(e),
        Ok(p) => Ok((before_char(p, '/'), after_last_char(p, '/'), p, encoded_path(p))),
    }
}

impl ForgeRepoInfo {
    /// The fields as views: account, repository, path, project path.
    pub open spec fn view4(&self) -> (Seq<char>, Seq<char>, Seq<char>, Seq<char>) {
        (self.account@, self.repository@, self.repo_path@, self.project_path@)
    }
}

fn encoded_chars(p: &[char]) -> (r: Vec<char>)
    ensures
        r@ == encoded_path(p@),
{
    proof {
        reveal_strlit("/");
    }
    replace_exec(p, &lit("/"), &lit("%2F"))
}

/// Splits a repository URL into the parts that URL templates use.
pub fn forge_repo_info(repository: &str, host: ForgeHost) -> (r: Result<ForgeRepoInfo, String>)
    ensures
        match repo_info_spec(repository@) {
            Ok(v) => r matches Ok(info) && info.view4() == v,
            Err(e) => r matches Err(m) && m@ == e,
        },
{
    match path_chars(&chars_of(repository)) {
        Err(e) => Err(string_of(&e)),
        Ok(p) => {
            let account = before_char_exec(&p, '/');
            let repo = after_last_char_exec(&p, '/');
            let project = encoded_chars(&p);
            Ok(ForgeRepoInfo {
                account: string_of(&account),
                repository: string_of(&repo),
                repo_path: string_of(&p),
                project_path: string_of(&project),
            })
        },
    }
}

/// The repository path (the same for every platform).
pub fn forge_repo_path(repository: &str, host: ForgeHost) -> (o: Result<String, String>)
    ensures
        res_view(o) == path_spec(repository@),
{
    repository_path(repository)
}

/// The GitLab project path of a repository, with `/` written `%2F`.
pub fn encoded_gitlab_project_path(repository: &str) -> (o: Result<String, String>)
    ensures
        res_view(o) == match path_spec(repository@) {
            Ok(p) => Ok(encoded_path(p)),
            Err(e) => Err(e),
        },
{
    match path_chars(&chars_of(repository)) {
        Ok(p) => Ok(string_of(&encoded_chars(&p))),
        Err(e) => Err(string_of(&e)),
    }
}

/// The API URL of the latest release.
pub open spec fn api_url_spec(host: ForgeHost, r: Seq<char>) -> Result<Seq<char>, Seq<char>> {
    match host {
        ForgeHost::GitHub => Ok(
            replace_all(r, "https://github.com/"@, "https://api.github.com/repos/"@)
                + "/releases/latest"@,
        ),
        ForgeHost::GitLab => match path_spec(r) {
            Ok(p) => Ok(
                "https://gitlab.com/api/v4/projects/"@ + encoded_path(p)
                    + "/releases/permalink/latest"@,
            ),
            Err(e) => Err(e),
        },
        _ => match origin_spec(r) {
            Err(e) => Err(e),
            Ok(o) => match path_spec(r) {
                Err(e) => Err(e),
                Ok(p) => Ok(o + "/api/v1/repos/"@ + p + "/releases/latest"@),
            },
        },
    }
}

fn api_url_chars(host: ForgeHost, r: &[char]) -> (o: Result<Vec<char>, Vec<char>>)
    ensures
        cres_view(o) == api_url_spec(host, r@),
{
    proof {
        reveal_strlit("https://github.com/");
    }
    match host {
        ForgeHost::GitHub => {
            let replaced = replace_exec(r, &lit("https://github.com/"), &lit("https://api.github.com/repos/"));
            Ok(cat(&replaced, &lit("/releases/latest")))
        },
        ForgeHost::GitLab => match path_chars(r) {
            Ok(p) => Ok(cat3(&lit("https://gitlab.com/api/v4/projects/"), &encoded_chars(&p), &lit("/releases/permalink/latest"))),
            Err(e) => Err(e),
        },
        _ => match origin_chars(r) {
            Err(e) => Err(e),
            Ok(o) => match path_chars(r) {
                Err(e) => Err(e),
                Ok(p) => Ok(cat(&cat3(&o, &lit("/api/v1/repos/"), &p), &lit("/releases/latest"))),
            },
        },
    }
}

/// The API URL of the latest release on the platform's public instance.
pub fn release_api_url(host: ForgeHost, repository: &str) -> (o: Result<String, String>)
    ensures
        res_view(o) == api_url_spec(host, repository@),
{
    res_string(api_url_chars(host, &chars_of(repository)))
}

/// `template` with `{account}`, `{repository}`, `{repo_path}` and `{project_path}`
/// replaced, in that order.
pub open spec fn render_spec(t: Seq<char>, info: (Seq<char>, Seq<char>, Seq<char>, Seq<char>)) -> Seq<char> {
    replace_all(
        replace_all(
            replace_all(replace_all(t, "{account}"@, info.0), "{repository}"@, info.1),
            "{repo_path}"@,
            info.2,
        ),
        "{project_path}"@,
        info.3,
    )
}

fn render_chars(t: &[char], info: &ForgeRepoInfo) -> (r: Vec<char>)
    ensures
        r@ == render_spec(t@, info.view4()),
{
    proof {
        reveal_strlit("{account}");
        reveal_strlit("{repository}");
        reveal_strlit("{repo_path}");
        reveal_strlit("{project_path}");
    }
    let a = replace_exec(t, &lit("{account}"), &chars_of_string(&info.account));
    let b = replace_exec(&a, &lit("{repository}"), &chars_of_string(&info.repository));
    let c = replace_exec(&b, &lit("{repo_path}"), &chars_of_string(&info.repo_path));
    replace_exec(&c, &lit("{project_path}"), &chars_of_string(&info.project_path))
}

/// Fills a URL template with the parts of a repository.
pub fn render_forge_template(template: &str, repo: &ForgeRepoInfo) -> (r: String)
    ensures
        r@ == render_spec(template@, repo.view4()),
{
    string_of(&render_chars(&chars_of(template), repo))
}

/// The URL from `template` when one is given, else the public API URL.
pub open spec fn api_url_template_spec(host: ForgeHost, r: Seq<char>, template: Option<Seq<char>>) -> Result<Seq<char>, Seq<char>> {
    match template {
        Some(t) => match repo_info_spec(r) {
            Ok(info) => Ok(render_spec(t, info)),
            Err(e) => Err(e),
        },
        None => api_url_spec(host, r),
    }
}

/// The release API URL, from a template when one is given.
pub fn release_api_url_with_template(host: ForgeHost, repository: &str, template: Option<&str>) -> (o: Result<String, String>)
    ensures
        res_view(o) == api_url_template_spec(host, repository@, opt_str(template)),
{
    match template {
        Some(t) => match forge_repo_info(repository, host) {
            Ok(info) => Ok(render_forge_template(t, &info)),
            Err(e) => Err(e),
        },
        None => release_api_url(host, repository),
    }
}

/// The release API URL under the configured templates.
pub open spec fn api_url_config_spec(host: ForgeHost, r: Seq<char>, cfg: GlobalConfig) -> Result<Seq<char>, Seq<char>> {
    match host {
        ForgeHost::GitHub => api_url_template_spec(host, r, opt_view(cfg.github_release_api_url)),
        ForgeHost::GitLab => api_url_template_spec(host, r, opt_view(cfg.gitlab_release_api_url)),
        _ => api_url_spec(host, r),
    }
}

fn opt_as_str(o: &Option<String>) -> (r: Option<&str>)
    ensures
        opt_str(r) == opt_view(*o),
{
    match o {
        Some(s) => Some(s.as_str()),
        None => None,
    }
}

/// The release API URL, using the templates of the global configuration.
pub fn release_api_url_with_config(host: ForgeHost, repository: &str, global_config: &GlobalConfig) -> (o: Result<String, String>)
    ensures
        res_view(o) == api_url_config_spec(host, repository@, *global_config),
{
    match host {
        ForgeHost::GitHub => release_api_url_with_template(host, repository, opt_as_str(&global_config.github_release_api_url)),
        ForgeHost::GitLab => release_api_url_with_template(host, repository, opt_as_str(&global_config.gitlab_release_api_url)),
        _ => release_api_url(host, repository),
    }
}

/// The repository's web address; only github.com is supported.
pub open spec fn web_url_spec(r: Seq<char>) -> Result<Seq<char>, Seq<char>> {
    if is_prefix("https://github.com/"@, r) {
        Ok(r)
    } else {
        Err("Only github.com is currently supported for the repository base URL, got "@ + r)
    }
}

/// The repository's web address on github.com.
pub fn github_release_web_url(repository: &str) -> (o: Result<String, String>)
    ensures
        res_view(o) == web_url_spec(repository@),
{
    let r = chars_of(repository);
    if starts_with(&r, &lit("https://github.com/")) {
        Ok(String::from_str(repository))
    } else {
        Err(string_of(&cat(&lit("Only github.com is currently supported for the repository base URL, got "), &r)))
    }
}

/// The web address from `template` when one is given, else from github.com.
pub open spec fn web_url_template_spec(r: Seq<char>, template: Option<Seq<char>>) -> Result<Seq<char>, Seq<char>> {
    match template {
        Some(t) => match repo_info_spec(r) {
            Ok(info) => Ok(render_spec(t, info)),
            Err(e) => Err(e),
        },
        None => web_url_spec(r),
    }
}

/// The repository's web address, from a template when one is given.
pub fn github_release_web_url_with_template(repository: &str, template: Option<&str>) -> (o: Result<String, String>)
    ensures
        res_view(o) == web_url_template_spec(repository@, opt_str(template)),
{
    match template {
        Some(t) => match forge_repo_info(repository, ForgeHost::GitHub) {
            Ok(info) => Ok(render_forge_template(t, &info)),
            Err(e) => Err(e),
        },
        None => github_release_web_url(repository),
    }
}

/// The repository's web address under the configured template.
pub open spec fn web_url_config_spec(r: Seq<char>, cfg: GlobalConfig) -> Result<Seq<char>, Seq<char>> {
    web_url_template_spec(r, opt_view(cfg.github_release_web_url))
}

/// The repository's web address, using the template of the global configuration.
pub fn github_release_web_url_with_config(repository: &str, global_config: &GlobalConfig) -> (o: Result<String, String>)
    ensures
        res_view(o) == web_url_config_spec(repository@, *global_config),
{
    github_release_web_url_with_template(repository, opt_as_str(&global_config.github_release_web_url))
}

/// The latest-release web page; only github.com is supported.
pub open spec fn release_page_spec(r: Seq<char>) -> Result<Seq<char>, Seq<char>> {
    if is_prefix("https://github.com/"@, r) {
        Ok(r + "/releases/latest"@)
    } else {
        Err("Only github.com is currently supported for the release page fallback, got "@ + r)
    }
}

/// The web page of the latest release on github.com.
pub fn github_release_page_url(repository: &str) -> (o: Result<String, String>)
    ensures
        res_view(o) == release_page_spec(repository@),
{
    let r = chars_of(repository);
    if starts_with(&r, &lit("https://github.com/")) {
        Ok(string_of(&cat(&r, &lit("/releases/latest"))))
    } else {
        Err(string_of(&cat(&lit("Only github.com is currently supported for the release page fallback, got "), &r)))
    }
}

/// The GitHub release API URL reached through a proxy.
pub fn github_proxy_release_url(repository: &str, github_proxy_prefix: &str) -> (o: Result<String, String>)
    ensures
        match api_url_spec(ForgeHost::GitHub, repository@) {
            Ok(u) => res_view(o) == Ok::<Seq<char>, Seq<char>>(github_proxy_prefix@ + u),
            Err(e) => res_view(o) == Err::<Seq<char>, Seq<char>>(e),
        },
{
    match api_url_chars(ForgeHost::GitHub, &chars_of(repository)) {
        Ok(u) => Ok(string_of(&cat(&chars_of(github_proxy_prefix), &u))),
        Err(e) => Err(string_of(&e)),
    }
}

/// The configured GitHub release API URL reached through a proxy.
pub fn github_proxy_release_url_with_config(repository: &str, github_proxy_prefix: &str, global_config: &GlobalConfig) -> (o: Result<String, String>)
    ensures
        match api_url_config_spec(ForgeHost::GitHub, repository@, *global_config) {
            Ok(u) => res_view(o) == Ok::<Seq<char>, Seq<char>>(github_proxy_prefix@ + u),
            Err(e) => res_view(o) == Err::<Seq<char>, Seq<char>>(e),
        },
{
    match release_api_url_with_config(ForgeHost::GitHub, repository, global_config) {
        Ok(u) => Ok(string_of(&cat(&chars_of(github_proxy_prefix), &chars_of_string(&u)))),
        Err(e) => Err(e),
    }
}

/// `url` without the proxy prefix, when it starts with it.
pub open spec fn sanitize_spec(url: Seq<char>, prefix: Seq<char>) -> Seq<char> {
    match strip_prefix(url, prefix) {
        Some(rest) => rest,
        None => url,
    }
}

fn sanitize_chars(url: &[char], prefix: &[char]) -> (r: Vec<char>)
    ensures
        r@ == sanitize_spec(url@, prefix@),
{
    match strip_prefix_exec(url, prefix) {
        Some(rest) => rest,
        None => crate::text::slice_copy(url, 0, url.len()),
    }
}

/// Removes the proxy prefix that a proxy put in front of a URL.
pub fn sanitize_github_proxy_url(url: &str, github_proxy_prefix: &str) -> (r: String)
    ensures
        r@ == sanitize_spec(url@, github_proxy_prefix@),
{
    string_of(&sanitize_chars(&chars_of(url), &chars_of(github_proxy_prefix)))
}

/// A proxied address, stripped of the proxy prefix, is the address itself: the proxy
/// only carries the metadata request, and the URLs it hands back lead to GitHub.
pub proof fn law_proxy_prefix_strips_back(prefix: Seq<char>, url: Seq<char>)
    ensures
        sanitize_spec(prefix + url, prefix) == url,
{
    assert((prefix + url).subrange(0, prefix.len() as int) =~= prefix);
    assert((prefix + url).skip(prefix.len() as int) =~= url);
}

/// The message for metadata that belongs to another repository.
pub open spec fn different_repository(u: Seq<char>) -> Seq<char> {
    "GitHub proxy returned metadata for a different repository: "@ + u
}

/// Metadata fetched through a proxy must point at `expected_api` and `expected_web`.
pub open spec fn proxy_metadata_check(url: Option<Seq<char>>, html_url: Option<Seq<char>>, prefix: Seq<char>, expected_api: Seq<char>, expected_web: Seq<char>) -> Result<(), Seq<char>> {
    match url {
        Some(u) if !is_prefix(expected_api, sanitize_spec(u, prefix)) => Err(different_repository(sanitize_spec(u, prefix))),
        _ => match html_url {
            Some(h) if !is_prefix(expected_web, sanitize_spec(h, prefix)) => Err(different_repository(sanitize_spec(h, prefix))),
            _ => Ok(()),
        },
    }
}

fn proxy_metadata_check_exec(resp: &ReleaseMetadata, prefix: &[char], expected_api: &[char], expected_web: &[char]) -> (r: Result<(), String>)
    ensures
        match proxy_metadata_check(opt_view(resp.url), opt_view(resp.html_url), prefix@, expected_api@, expected_web@) {
            Ok(_) => r is Ok,
            Err(e) => r matches Err(m) && m@ == e,
        },
{
    if let Some(u) = &resp.url {
        let s = sanitize_chars(&chars_of_string(u), prefix);
        if !starts_with(&s, expected_api) {
            return Err(string_of(&cat(&lit("GitHub proxy returned metadata for a different repository: "), &s)));
        }
    }
    if let Some(h) = &resp.html_url {
        let s = sanitize_chars(&chars_of_string(h), prefix);
        if !starts_with(&s, expected_web) {
            return Err(string_of(&cat(&lit("GitHub proxy returned metadata for a different repository: "), &s)));
        }
    }
    Ok(())
}

/// Checks that proxied metadata belongs to the repository on github.com.
pub open spec fn validate_proxy_spec(r: Seq<char>, url: Option<Seq<char>>, html_url: Option<Seq<char>>, prefix: Seq<char>) -> Result<(), Seq<char>> {
    match path_spec(r) {
        Err(e) => Err(e),
        Ok(p) => proxy_metadata_check(
            url,
            html_url,
            prefix,
            "https://api.github.com/repos/"@ + p + "/releases/"@,
            "https://github.com/"@ + p + "/"@,
        ),
    }
}

/// Checks that metadata fetched through a proxy describes `repository`.
pub fn validate_github_proxy_metadata(repository: &str, resp: &ReleaseMetadata, github_proxy_prefix: &str) -> (r: Result<(), String>)
    ensures
        match validate_proxy_spec(repository@, opt_view(resp.url), opt_view(resp.html_url), github_proxy_prefix@) {
            Ok(_) => r is Ok,
            Err(e) => r matches Err(m) && m@ == e,
        },
{
    match path_chars(&chars_of(repository)) {
        Err(e) => Err(string_of(&e)),
        Ok(p) => {
            let api = cat3(&lit("https://api.github.com/repos/"), &p, &lit("/releases/"));
            let web = cat3(&lit("https://github.com/"), &p, &lit("/"));
            proxy_metadata_check_exec(resp, &chars_of(github_proxy_prefix), &api, &web)
        },
    }
}

/// The API prefix expected of proxied metadata: the API URL up to its last `/`.
pub open spec fn api_prefix_of(api: Seq<char>) -> Seq<char> {
    match rsplit_once(api, "/"@) {
        Some((head, _)) => head + "/"@,
        None => api,
    }
}

/// Checks proxied metadata against the configured API and web addresses.
pub open spec fn validate_proxy_config_spec(r: Seq<char>, url: Option<Seq<char>>, html_url: Option<Seq<char>>, prefix: Seq<char>, cfg: GlobalConfig) -> Result<(), Seq<char>> {
    match api_url_config_spec(ForgeHost::GitHub, r, cfg) {
        Err(e) => Err(e),
        Ok(api) => match web_url_config_spec(r, cfg) {
            Err(e) => Err(e),
            Ok(web) => proxy_metadata_check(url, html_url, prefix, api_prefix_of(api), trim_end_char(web, '/') + "/"@),
        },
    }
}

/// Checks that proxied metadata describes `repository` under the configured templates.
pub fn validate_github_proxy_metadata_with_config(repository: &str, resp: &ReleaseMetadata, github_proxy_prefix: &str, global_config: &GlobalConfig) -> (r: Result<(), String>)
    ensures
        match validate_proxy_config_spec(repository@, opt_view(resp.url), opt_view(resp.html_url), github_proxy_prefix@, *global_config) {
            Ok(_) => r is Ok,
            Err(e) => r matches Err(m) && m@ == e,
        },
{
    let api = match release_api_url_with_config(ForgeHost::GitHub, repository, global_config) {
        Ok(a) => chars_of_string(&a),
        Err(e) => return Err(e),
    };
    let expected_api = match rsplit_once_exec(&api, &lit("/")) {
        Some((head, _)) => cat(&head, &lit("/")),
        None => api,
    };
    let web = match github_release_web_url_with_config(repository, global_config) {
        Ok(w) => chars_of_string(&w),
        Err(e) => return Err(e),
    };
    let expected_web = cat(&trim_end_char_exec(&web, '/'), &lit("/"));
    proxy_metadata_check_exec(resp, &chars_of(github_proxy_prefix), &expected_api, &expected_web)
}

/// The URL prefix that the downloads of a release must have.
pub open spec fn expected_download_prefix(host: ForgeHost, web: Seq<char>, version: Seq<char>) -> Seq<char> {
    match host {
        ForgeHost::GitLab => trim_end_char(web, '/') + "/-/releases/"@ + version + "/downloads/"@,
        _ => trim_end_char(web, '/') + "/releases/download/"@,
    }
}

/// A download URL is accepted when it lies under the release's download path.
pub open spec fn download_url_check(host: ForgeHost, web: Seq<char>, version: Seq<char>, url: Seq<char>) -> Result<(), Seq<char>> {
    if is_prefix(expected_download_prefix(host, web, version), url) {
        Ok(())
    } else {
        Err(host_name_spec(host) + " returned a download URL for a different repository: "@ + url)
    }
}

/// Checks that a download URL belongs to the release's repository.
pub fn validate_release_download_url(host: ForgeHost, release_web_url: &str, version: &str, download_url: &str) -> (r: Result<(), String>)
    ensures
        match download_url_check(host, release_web_url@, version@, download_url@) {
            Ok(_) => r is Ok,
            Err(e) => r matches Err(m) && m@ == e,
        },
{
    let web = trim_end_char_exec(&chars_of(release_web_url), '/');
    let expected = match host {
        ForgeHost::GitLab => cat(&cat3(&web, &lit("/-/releases/"), &chars_of(version)), &lit("/downloads/")),
        _ => cat(&web, &lit("/releases/download/")),
    };
    let url = chars_of(download_url);
    if starts_with(&url, &expected) {
        Ok(())
    } else {
        Err(string_of(&cat3(&lit(host_name(host)), &lit(" returned a download URL for a different repository: "), &url)))
    }
}

// ---------------------------------------------------------------------------
// Release assets and the choice among them
// ---------------------------------------------------------------------------

/// The asset that one entry of an asset list gives for `host`: it needs a name and a
/// download URL (GitLab: `direct_asset_url`, else `url`).
pub open spec fn entry_asset(host: ForgeHost, e: ReleaseAssetEntry) -> Option<(Seq<char>, Seq<char>)> {
    match opt_view(e.name) {
        None => None,
        Some(n) => match host {
            ForgeHost::GitLab => match opt_view(e.direct_asset_url) {
                Some(u) => Some((n, u)),
                None => match opt_view(e.url) {
                    Some(u) => Some((n, u)),
                    None => None,
                },
            },
            _ => match opt_view(e.browser_download_url) {
                Some(u) => Some((n, u)),
                None => None,
            },
        },
    }
}

/// The assets of an asset list, in order, skipping entries without a name or URL.
pub open spec fn assets_spec(host: ForgeHost, entries: Seq<ReleaseAssetEntry>) -> Seq<(Seq<char>, Seq<char>)>
    decreases entries.len(),
{
    if entries.len() == 0 {
        seq![]
    } else {
        let rest = assets_spec(host, entries.drop_last());
        match entry_asset(host, entries.last()) {
            Some(a) => rest.push(a),
            None => rest,
        }
    }
}

/// Name and download URL of each asset.
pub open spec fn asset_views(v: Seq<ReleaseAsset>) -> Seq<(Seq<char>, Seq<char>)> {
    v.map_values(|a: ReleaseAsset| (a.name@, a.download_url@))
}

/// The asset list of a release's metadata, or the error for metadata without one.
pub open spec fn release_assets_spec(host: ForgeHost, resp: ReleaseMetadata, r: Seq<char>) -> Result<Seq<(Seq<char>, Seq<char>)>, Seq<char>> {
    match host {
        ForgeHost::GitLab => match resp.asset_links {
            None => Err("Release metadata for "@ + r + " did not contain an assets.links array"@),
            Some(l) => Ok(assets_spec(host, l@)),
        },
        _ => match resp.assets {
            None => Err("Release metadata for "@ + r + " did not contain an assets array"@),
            Some(l) => Ok(assets_spec(host, l@)),
        },
    }
}

fn opt_chars(o: &Option<String>) -> (r: Option<Vec<char>>)
    ensures
        match opt_view(*o) {
            Some(v) => r matches Some(x) && x@ == v,
            None => r is None,
        },
{
    match o {
        Some(v) => Some(chars_of_string(v)),
        None => None,
    }
}

fn entry_asset_exec(host: ForgeHost, e: &ReleaseAssetEntry) -> (r: Option<ReleaseAsset>)
    ensures
        match entry_asset(host, *e) {
            Some((n, u)) => r matches Some(a) && a.name@ == n && a.download_url@ == u,
            None => r is None,
        },
{
    let name = match opt_chars(&e.name) {
        Some(n) => n,
        None => return None,
    };
    let url = match host {
        ForgeHost::GitLab => match opt_chars(&e.direct_asset_url) {
            Some(u) => u,
            None => match opt_chars(&e.url) {
                Some(u) => u,
                None => return None,
            },
        },
        _ => match opt_chars(&e.browser_download_url) {
            Some(u) => u,
            None => return None,
        },
    };
    Some(ReleaseAsset { name: string_of(&name), download_url: string_of(&url) })
}

fn assets_exec(host: ForgeHost, entries: &Vec<ReleaseAssetEntry>) -> (r: Vec<ReleaseAsset>)
    ensures
        asset_views(r@) == assets_spec(host, entries@),
{
    let mut out: Vec<ReleaseAsset> = Vec::new();
    let mut i: usize = 0;
    while i < entries.len()
        invariant
            i <= entries.len(),
            asset_views(out@) == assets_spec(host, entries@.take(i as int)),
        decreases entries.len() - i,
    {
        let a = entry_asset_exec(host, &entries[i]);
        proof {
            assert(entries@.take(i + 1).drop_last() =~= entries@.take(i as int));
            assert(entries@.take(i + 1).last() == entries@[i as int]);
        }
        match a {
            Some(x) => {
                let ghost prev = out@;
                out.push(x);
                assert(out@.drop_last() =~= prev);
                assert(asset_views(out@) =~= asset_views(prev).push((x.name@, x.download_url@)));
            },
            None => {},
        }
        i = i + 1;
    }
    assert(entries@.take(entries.len() as int) =~= entries@);
    out
}

/// The assets listed in a release's metadata (`assets` on GitHub, Gitea and Forgejo,
/// `assets.links` on GitLab).
pub fn release_assets(host: ForgeHost, resp: &ReleaseMetadata, repository: &str) -> (r: Result<Vec<ReleaseAsset>, String>)
    ensures
        match release_assets_spec(host, *resp, repository@) {
            Ok(v) => r matches Ok(a) && asset_views(a@) == v,
            Err(e) => r matches Err(m) && m@ == e,
        },
{
    let list = match host {
        ForgeHost::GitLab => &resp.asset_links,
        _ => &resp.assets,
    };
    match list {
        Some(l) => Ok(assets_exec(host, l)),
        None => {
            let tail = match host {
                ForgeHost::GitLab => lit(" did not contain an assets.links array"),
                _ => lit(" did not contain an assets array"),
            };
            Err(string_of(&cat3(&lit("Release metadata for "), &chars_of(repository), &tail)))
        },
    }
}

/// The release's web page, under which its downloads must lie.
pub open spec fn release_web_url_spec(host: ForgeHost, r: Seq<char>, cfg: GlobalConfig) -> Result<Seq<char>, Seq<char>> {
    match host {
        ForgeHost::GitHub => web_url_config_spec(r, cfg),
        ForgeHost::GitLab => match opt_view(cfg.gitlab_release_web_url) {
            Some(t) => match repo_info_spec(r) {
                Ok(info) => Ok(render_spec(t, info)),
                Err(e) => Err(e),
            },
            None => match path_spec(r) {
                Ok(p) => Ok("https://gitlab.com/"@ + p),
                Err(e) => Err(e),
            },
        },
        _ => Ok(trim_end_char(r, '/')),
    }
}

/// `i` is the first asset whose name `m` accepts.
pub open spec fn first_accepted_at(assets: Seq<(Seq<char>, Seq<char>)>, m: AssetMatcher, i: int) -> bool {
    0 <= i < assets.len() && matcher_accepts(m, assets[i].0) && forall|j: int| 0 <= j < i ==> !matcher_accepts(m, #[trigger] assets[j].0)
}

/// The first asset whose name `m` accepts, if any.
pub open spec fn first_accepted(assets: Seq<(Seq<char>, Seq<char>)>, m: AssetMatcher) -> Option<int> {
    if exists|i: int| first_accepted_at(assets, m, i) {
        Some(choose|i: int| first_accepted_at(assets, m, i))
    } else {
        None
    }
}

/// The asset names joined with `, `.
pub open spec fn joined_names(assets: Seq<(Seq<char>, Seq<char>)>) -> Seq<char>
    decreases assets.len(),
{
    if assets.len() == 0 {
        seq![]
    } else if assets.len() == 1 {
        assets[0].0
    } else {
        joined_names(assets.drop_last()) + ", "@ + assets.last().0
    }
}

/// The error for a release none of whose assets matches.
pub open spec fn no_match_message(r: Seq<char>, m: AssetMatcher, assets: Seq<(Seq<char>, Seq<char>)>) -> Seq<char> {
    "No matching asset found for repository "@ + r + " with pattern '"@ + matcher_text(m)
        + "'. Available assets: "@ + if assets.len() == 0 { "<none>"@ } else { joined_names(assets) }
}

/// The error for a proxied lookup without any proxy.
pub open spec fn no_proxy_message(r: Seq<char>) -> Seq<char> {
    "GitHub proxy is enabled for "@ + r + " but no proxy prefixes were configured"@
}

/// The download URL chosen among a release's assets: the first accepted asset,
/// without the proxy prefix when a proxy is used, and only if it lies under the
/// release's own download path.
pub open spec fn select_download_spec(
    host: ForgeHost,
    r: Seq<char>,
    m: AssetMatcher,
    version: Seq<char>,
    assets: Seq<(Seq<char>, Seq<char>)>,
    proxy: bool,
    prefixes: Seq<Seq<char>>,
    cfg: GlobalConfig,
) -> Result<Seq<char>, Seq<char>> {
    match release_web_url_spec(host, r, cfg) {
        Err(e) => Err(e),
        Ok(web) => match first_accepted(assets, m) {
            None => Err(no_match_message(r, m, assets)),
            Some(i) => {
                let url = if host == ForgeHost::GitHub && proxy && prefixes.len() > 0 {
                    sanitize_spec(assets[i].1, prefixes[0])
                } else {
                    assets[i].1
                };
                if host == ForgeHost::GitHub && proxy && prefixes.len() == 0 {
                    Err(no_proxy_message(r))
                } else {
                    match download_url_check(host, web, version, url) {
                        Ok(_) => Ok(url),
                        Err(e) => Err(e),
                    }
                }
            },
        },
    }
}

fn release_web_url_exec(host: ForgeHost, repository: &str, global_config: &GlobalConfig) -> (o: Result<String, String>)
    ensures
        res_view(o) == release_web_url_spec(host, repository@, *global_config),
{
    match host {
        ForgeHost::GitHub => github_release_web_url_with_config(repository, global_config),
        ForgeHost::GitLab => match &global_config.gitlab_release_web_url {
            Some(t) => match forge_repo_info(repository, host) {
                Ok(info) => Ok(render_forge_template(t.as_str(), &info)),
                Err(e) => Err(e),
            },
            None => match forge_repo_path(repository, host) {
                Ok(p) => Ok(string_of(&cat(&lit("https://gitlab.com/"), &chars_of_string(&p)))),
                Err(e) => Err(e),
            },
        },
        _ => Ok(string_of(&trim_end_char_exec(&chars_of(repository), '/'))),
    }
}

fn joined_names_exec(assets: &[ReleaseAsset]) -> (r: Vec<char>)
    ensures
        r@ == joined_names(asset_views(assets@)),
{
    let mut out: Vec<char> = Vec::new();
    let mut i: usize = 0;
    while i < assets.len()
        invariant
            i <= assets.len(),
            out@ == joined_names(asset_views(assets@).take(i as int)),
        decreases assets.len() - i,
    {
        let ghost prev = asset_views(assets@).take(i as int);
        let ghost next = asset_views(assets@).take(i + 1);
        proof {
            assert(next.drop_last() =~= prev);
            assert(next.last() == (assets@[i as int].name@, assets@[i as int].download_url@));
        }
        if i > 0 {
            push_all(&mut out, &lit(", "));
        }
        push_all(&mut out, &chars_of_string(&assets[i].name));
        proof {
            if i == 0 {
                assert(out@ =~= next[0].0);
            } else {
                assert(out@ =~= joined_names(prev) + ", "@ + next.last().0);
            }
        }
        i = i + 1;
    }
    assert(asset_views(assets@).take(assets.len() as int) =~= asset_views(assets@));
    out
}

/// Chooses the download URL among a release's assets for the resolver of `repository`.
pub fn select_release_download(
    repository: &str,
    matcher: &AssetMatcher,
    version: &str,
    assets: &[ReleaseAsset],
    host: ForgeHost,
    github_proxy: bool,
    github_proxy_prefixes: &[String],
    global_config: &GlobalConfig,
) -> (r: Result<String, String>)
    ensures
        res_view(r) == select_download_spec(
            host,
            repository@,
            *matcher,
            version@,
            asset_views(assets@),
            github_proxy,
            strings_view(github_proxy_prefixes@),
            *global_config,
        ),
{
    let web = match release_web_url_exec(host, repository, global_config) {
        Ok(w) => w,
        Err(e) => return Err(e),
    };
    let ghost av = asset_views(assets@);
    let mut i: usize = 0;
    while i < assets.len()
        invariant
            i <= assets.len(),
            av == asset_views(assets@),
            forall|j: int| 0 <= j < i ==> !matcher_accepts(*matcher, #[trigger] av[j].0),
            release_web_url_spec(host, repository@, *global_config) == Ok::<Seq<char>, Seq<char>>(web@),
        decreases assets.len() - i,
    {
        if matcher.matches(assets[i].name.as_str()) {
            proof {
                assert(first_accepted_at(av, *matcher, i as int));
                let k = choose|k: int| first_accepted_at(av, *matcher, k);
                assert(k == i) by {
                    if k < i {
                        assert(!matcher_accepts(*matcher, av[k].0));
                    }
                    if i < k {
                        assert(!matcher_accepts(*matcher, av[i as int].0));
                    }
                }
            }
            let is_proxied = host == ForgeHost::GitHub && github_proxy;
            let url = if is_proxied {
                if github_proxy_prefixes.len() == 0 {
                    return Err(string_of(&cat3(
                        &lit("GitHub proxy is enabled for "),
                        &chars_of(repository),
                        &lit(" but no proxy prefixes were configured"),
                    )));
                }
                sanitize_github_proxy_url(assets[i].download_url.as_str(), github_proxy_prefixes[0].as_str())
            } else {
                assets[i].download_url.clone()
            };
            return match validate_release_download_url(host, web.as_str(), version, url.as_str()) {
                Ok(_) => Ok(url),
                Err(e) => Err(e),
            };
        }
        i = i + 1;
    }
    proof {
        assert(!exists|k: int| first_accepted_at(av, *matcher, k));
    }
    let names = if assets.len() == 0 {
        lit("<none>")
    } else {
        joined_names_exec(assets)
    };
    let head = cat3(&lit("No matching asset found for repository "), &chars_of(repository), &lit(" with pattern '"));
    let msg = cat3(&head, &chars_of(matcher.description()), &cat(&lit("'. Available assets: "), &names));
    assert(msg@ =~= no_match_message(repository@, *matcher, av));
    Err(string_of(&msg))
}

/// Whether a server's `Accept-Ranges` value announces byte ranges.
pub open spec fn accepts_byte_ranges(accept_ranges: Option<Seq<char>>) -> bool {
    capability_spec("segmented_downloads"@, accept_ranges) is Some
}

/// The result of a forge lookup, from the chosen download and the `Accept-Ranges`
/// header that a `HEAD` request on it returned (`None` when it failed or had none).
pub fn build_check_result(
    repository: &str,
    version: String,
    download_url: String,
    accept_ranges: Option<&str>,
    state: Option<&AppState>,
    forge_repository: Option<String>,
    forge_platform: Option<ForgeHost>,
) -> (r: Result<CheckResult, String>)
    ensures
        version@.len() == 0 ==> (r matches Err(m) && m@ == "Release metadata for "@ + repository@
            + " did not contain a version"@),
        version@.len() > 0 ==> (r matches Ok(c) && {
            let ranges = accepts_byte_ranges(opt_str(accept_ranges));
            &&& strings_view(c.capabilities@) == if ranges { seq!["segmented_downloads"@] } else { seq![] }
            &&& c.segmented_downloads == Some(ranges)
            &&& c.forge_repository == forge_repository
            &&& c.forge_platform == forge_platform
            &&& (c.update is None <==> is_installed_version(match state { Some(s) => Some(*s), None => None }, version@))
            &&& (c.update matches Some(u) ==> u.download_url@ == download_url@ && u.version@ == version@
                && u.new_etag is None && u.new_last_modified is None)
        }),
{
    let mut capabilities: Vec<String> = Vec::new();
    let mut segmented = false;
    match capability_from_header_value("segmented_downloads", accept_ranges) {
        Some(c) => {
            capabilities.push(c);
            segmented = true;
        },
        None => {},
    }
    proof {
        reveal_strlit("segmented_downloads");
    }
    let ghost before = strings_view(capabilities@);
    dedupe_capabilities(&mut capabilities);
    proof {
        let after = strings_view(capabilities@);
        if segmented {
            assert(before =~= seq!["segmented_downloads"@]);
            assert(before[0] == "segmented_downloads"@);
            assert(before.contains("segmented_downloads"@));
            assert(after.contains("segmented_downloads"@));
            assert forall|k: int| 0 <= k < after.len() implies after[k] == "segmented_downloads"@ by {
                assert(after.contains(after[k]));
            }
            if after.len() > 1 {
                assert(seq_lt(after[0], after[1]));
                lemma_seq_lt_irreflexive(after[0]);
            }
            assert(after =~= seq!["segmented_downloads"@]);
        } else {
            assert(before.len() == 0);
            if after.len() > 0 {
                assert(after.contains(after[0]));
            }
            assert(after =~= Seq::<Seq<char>>::empty());
        }
    }
    if version.as_str().is_empty() {
        return Err(string_of(&cat3(&lit("Release metadata for "), &chars_of(repository), &lit(" did not contain a version"))));
    }
    let update = if installed_version_is(state, version.as_str()) {
        None
    } else {
        Some(UpdateInfo { download_url, version, new_etag: None, new_last_modified: None })
    };
    Ok(CheckResult {
        update,
        capabilities,
        segmented_downloads: Some(segmented),
        forge_repository,
        forge_platform,
    })
}

// ---------------------------------------------------------------------------
// Release page fallback
// ---------------------------------------------------------------------------

/// Characters that end an asset name inside a release page.
pub open spec fn ends_asset_name(c: char) -> bool {
    c == '"' || c == '\'' || c == '?' || c == '<' || is_ws(c)
}

/// `i` is the first index of `s` holding a character that ends an asset name.
pub open spec fn first_name_end_at(s: Seq<char>, i: int) -> bool {
    0 <= i < s.len() && ends_asset_name(s[i]) && forall|j: int| 0 <= j < i ==> !ends_asset_name(s[j])
}

/// Length of the asset name at the start of `s`: up to the first ending character.
pub open spec fn asset_name_len(s: Seq<char>) -> int {
    if exists|i: int| first_name_end_at(s, i) {
        choose|i: int| first_name_end_at(s, i)
    } else {
        s.len() as int
    }
}

/// The link whose `needle` starts at `i`: `None` when no `/` closes its tag segment,
/// else its tag and asset name.
pub open spec fn link_at(html: Seq<char>, needle_len: int, i: int) -> Option<(Seq<char>, Seq<char>)> {
    let after = html.skip(i + needle_len);
    match find_char(after, '/') {
        None => None,
        Some(t) => {
            let after_tag = after.skip(t + 1);
            Some((after.take(t), after_tag.take(asset_name_len(after_tag))))
        },
    }
}

/// Scans `html` for links that start with `needle`, from index `start` on.
/// `None`: no link decided the search; `Some(None)`: a link without a tag segment
/// ends the whole search; `Some(Some((tag, name)))`: the first accepted asset.
pub open spec fn scan_links(html: Seq<char>, needle: Seq<char>, m: AssetMatcher, start: int) -> Option<
    Option<(Seq<char>, Seq<char>)>,
>
    decreases html.len() - start,
{
    if needle.len() > 0 && exists|i: int| first_occurrence_from(html, needle, start, i) {
        let i = choose|i: int| first_occurrence_from(html, needle, start, i);
        match link_at(html, needle.len() as int, i) {
            None => Some(None),
            Some((tag, name)) => if matcher_accepts(m, name) {
                Some(Some((tag, name)))
            } else {
                scan_links(html, needle, m, i + needle.len())
            },
        }
    } else {
        None
    }
}

/// The site-relative form of a release page URL: `/` and its path, or the trimmed
/// URL when it has no path.
pub open spec fn relative_base(url: Seq<char>) -> Seq<char> {
    match split_once(url, "://"@) {
        Some((_, rest)) => match split_once(rest, "/"@) {
            Some((_, path)) => "/"@ + path,
            None => trim_end_char(url, '/'),
        },
        None => trim_end_char(url, '/'),
    }
}

/// The asset that the release page `html` links to for `m`, with its tag and its
/// download URL under `url`: absolute links are tried before site-relative ones.
pub open spec fn html_asset_spec(html: Seq<char>, url: Seq<char>, m: AssetMatcher) -> Option<(Seq<char>, Seq<char>)> {
    let base = trim_end_char(url, '/');
    let absolute = base + "/releases/download/"@;
    let relative = trim_end_char(relative_base(url), '/') + "/releases/download/"@;
    let pick = match scan_links(html, absolute, m, 0) {
        Some(r) => r,
        None => match scan_links(html, relative, m, 0) {
            Some(r) => r,
            None => None,
        },
    };
    match pick {
        Some((tag, name)) => Some((tag, base + "/releases/download/"@ + tag + "/"@ + name)),
        None => None,
    }
}

/// Length of the asset name at the start of `s`.
fn asset_name_len_exec(s: &[char]) -> (r: usize)
    ensures
        r == asset_name_len(s@),
{
    let mut i: usize = 0;
    while i < s.len()
        invariant
            i <= s.len(),
            forall|j: int| 0 <= j < i ==> !ends_asset_name(s@[j]),
        decreases s.len() - i,
    {
        let c = s[i];
        if c == '"' || c == '\'' || c == '?' || c == '<' || is_ws_exec(c) {
            proof {
                assert(first_name_end_at(s@, i as int));
                let k = choose|k: int| first_name_end_at(s@, k);
                assert(k == i) by {
                    if k < i {
                        assert(!ends_asset_name(s@[k]));
                    }
                    if i < k {
                        assert(!ends_asset_name(s@[i as int]));
                    }
                }
            }
            return i;
        }
        i = i + 1;
    }
    proof {
        assert(!exists|k: int| first_name_end_at(s@, k));
    }
    i
}

/// Scans for links under `needle`, as `scan_links` describes from index 0.
fn scan_links_exec(html: &[char], needle: &[char], matcher: &AssetMatcher) -> (r: Option<Option<(Vec<char>, Vec<char>)>>)
    requires
        needle.len() > 0,
    ensures
        match scan_links(html@, needle@, *matcher, 0) {
            None => r is None,
            Some(None) => r matches Some(None),
            Some(Some((t, n))) => r matches Some(Some((a, b))) && a@ == t && b@ == n,
        },
{
    let mut search_start: usize = 0;
    loop
        invariant
            needle.len() > 0,
            search_start <= html.len(),
            scan_links(html@, needle@, *matcher, search_start as int) == scan_links(html@, needle@, *matcher, 0),
        decreases html.len() - search_start,
    {
        match find_from(html, needle, search_start) {
            None => {
                proof {
                    assert(!exists|i: int| first_occurrence_from(html@, needle@, search_start as int, i));
                }
                return None;
            },
            Some(i) => {
                proof {
                    let k = choose|k: int| first_occurrence_from(html@, needle@, search_start as int, k);
                    lemma_first_occurrence_unique(html@, needle@, search_start as int, i as int, k);
                }
                let after_start = i + needle.len();
                let after = slice_copy(html, after_start, html.len());
                assert(after@ == html@.skip(after_start as int));
                match find_char_exec(&after, '/') {
                    None => {
                        return Some(None);
                    },
                    Some(t) => {
                        let version = slice_copy(&after, 0, t);
                        let after_tag = slice_copy(&after, t + 1, after.len());
                        assert(version@ == after@.take(t as int));
                        assert(after_tag@ == after@.skip(t + 1));
                        let e = asset_name_len_exec(&after_tag);
                        proof {
                            if exists|k: int| first_name_end_at(after_tag@, k) {
                                let k = choose|k: int| first_name_end_at(after_tag@, k);
                                assert(k < after_tag@.len());
                            }
                        }
                        let name = slice_copy(&after_tag, 0, e);
                        assert(name@ == after_tag@.take(e as int));
                        let name_s = string_of(&name);
                        if matcher.matches(name_s.as_str()) {
                            return Some(Some((version, name)));
                        }
                        search_start = after_start;
                    },
                }
            },
        }
    }
}

fn pick_of(r: Option<Option<(Vec<char>, Vec<char>)>>) -> (o: Option<(Vec<char>, Vec<char>)>)
    ensures
        match r {
            Some(x) => o == x,
            None => o is None,
        },
{
    match r {
        Some(x) => x,
        None => None,
    }
}

/// Finds, on a GitHub release page, the first asset link that `matcher` accepts.
/// Returns the release tag and the download URL under `release_web_url`.
pub fn find_release_asset_in_html_with_base_and_matcher(html: &str, release_web_url: &str, matcher: &AssetMatcher) -> (r: Option<(String, String)>)
    ensures
        match html_asset_spec(html@, release_web_url@, *matcher) {
            Some((t, u)) => r matches Some((a, b)) && a@ == t && b@ == u,
            None => r is None,
        },
{
    let url = chars_of(release_web_url);
    let base = trim_end_char_exec(&url, '/');
    let dl = lit("/releases/download/");
    let absolute = cat(&base, &dl);
    let rel_base = match split_once_exec(&url, &lit("://")) {
        Some((_, rest)) => match split_once_exec(&rest, &lit("/")) {
            Some((_, path)) => cat(&lit("/"), &path),
            None => trim_end_char_exec(&url, '/'),
        },
        None => trim_end_char_exec(&url, '/'),
    };
    let relative = cat(&trim_end_char_exec(&rel_base, '/'), &dl);
    proof {
        reveal_strlit("/releases/download/");
    }
    let page = chars_of(html);
    let pick = match scan_links_exec(&page, &absolute, matcher) {
        Some(x) => x,
        None => pick_of(scan_links_exec(&page, &relative, matcher)),
    };
    match pick {
        Some((tag, name)) => {
            let u = cat(&cat3(&base, &dl, &tag), &cat(&lit("/"), &name));
            assert(u@ == base@ + dl@ + tag@ + "/"@ + name@);
            Some((string_of(&tag), string_of(&u)))
        },
        None => None,
    }
}

/// Two matchers that accept the same names find the same links.
proof fn lemma_scan_same_acceptance(html: Seq<char>, needle: Seq<char>, m1: AssetMatcher, m2: AssetMatcher, start: int)
    requires
        forall|n: Seq<char>| matcher_accepts(m1, n) == matcher_accepts(m2, n),
    ensures
        scan_links(html, needle, m1, start) == scan_links(html, needle, m2, start),
    decreases html.len() - start,
{
    if needle.len() > 0 && exists|i: int| first_occurrence_from(html, needle, start, i) {
        let i = choose|i: int| first_occurrence_from(html, needle, start, i);
        lemma_scan_same_acceptance(html, needle, m1, m2, i + needle.len());
    }
}

/// Two matchers that accept the same names find the same asset on a release page.
proof fn lemma_html_same_acceptance(html: Seq<char>, url: Seq<char>, m1: AssetMatcher, m2: AssetMatcher)
    requires
        forall|n: Seq<char>| matcher_accepts(m1, n) == matcher_accepts(m2, n),
    ensures
        html_asset_spec(html, url, m1) == html_asset_spec(html, url, m2),
{
    let base = trim_end_char(url, '/');
    lemma_scan_same_acceptance(html, base + "/releases/download/"@, m1, m2, 0);
    lemma_scan_same_acceptance(html, trim_end_char(relative_base(url), '/') + "/releases/download/"@, m1, m2, 0);
}

/// Finds the asset on the release page of the GitHub repository `repo_path`.
pub fn find_release_asset_in_html_with_matcher(html: &str, repo_path: &str, matcher: &AssetMatcher) -> (r: Option<(String, String)>)
    ensures
        match html_asset_spec(html@, "https://github.com/"@ + trim_start_char(repo_path@, '/'), *matcher) {
            Some((t, u)) => r matches Some((a, b)) && a@ == t && b@ == u,
            None => r is None,
        },
{
    let url = string_of(&cat(&lit("https://github.com/"), &trim_start_char_exec(&chars_of(repo_path), '/')));
    find_release_asset_in_html_with_base_and_matcher(html, url.as_str(), matcher)
}

/// Finds the asset that the glob `pattern` accepts on a GitHub repository's release page.
pub fn find_release_asset_in_html(html: &str, repo_path: &str, pattern: &GlobMatcher) -> (r: Option<(String, String)>)
    ensures
        match html_asset_spec(html@, "https://github.com/"@ + trim_start_char(repo_path@, '/'), AssetMatcher::Glob(*pattern)) {
            Some((t, u)) => r matches Some((a, b)) && a@ == t && b@ == u,
            None => r is None,
        },
{
    let matcher = AssetMatcher::Glob(pattern.duplicate());
    let r = find_release_asset_in_html_with_matcher(html, repo_path, &matcher);
    proof {
        let url = "https://github.com/"@ + trim_start_char(repo_path@, '/');
        lemma_html_same_acceptance(html@, url, matcher, AssetMatcher::Glob(*pattern));
    }
    r
}

/// Finds the asset that the glob `pattern` accepts on the release page at `release_web_url`.
pub fn find_release_asset_in_html_with_base(html: &str, release_web_url: &str, pattern: &GlobMatcher) -> (r: Option<(String, String)>)
    ensures
        match html_asset_spec(html@, release_web_url@, AssetMatcher::Glob(*pattern)) {
            Some((t, u)) => r matches Some((a, b)) && a@ == t && b@ == u,
            None => r is None,
        },
{
    let matcher = AssetMatcher::Glob(pattern.duplicate());
    let r = find_release_asset_in_html_with_base_and_matcher(html, release_web_url, &matcher);
    proof {
        lemma_html_same_acceptance(html@, release_web_url@, matcher, AssetMatcher::Glob(*pattern));
    }
    r
}


// ---------------------------------------------------------------------------
// The lookup's decisions: what an answer means and where a rate limit turns
// ---------------------------------------------------------------------------

/// What an HTTP answer to a release lookup leads to.
#[derive(Clone, Copy, Debug, PartialEq, Eq, Structural)]
pub enum ReleaseAnswer {
    /// A success status: the body is release metadata.
    Metadata,
    /// The answer is a rate limit.
    RateLimited,
    /// Any other failure status.
    Failed,
}

/// A success status, 200 to 299.
pub open spec fn is_success_status(status: u16) -> bool {
    200 <= status <= 299
}

/// The release API's answer: 403 and 429 are rate limits, other non-success
/// statuses are failures.
pub open spec fn release_answer_spec(status: u16) -> ReleaseAnswer {
    if status == 403 || status == 429 {
        ReleaseAnswer::RateLimited
    } else if is_success_status(status) {
        ReleaseAnswer::Metadata
    } else {
        ReleaseAnswer::Failed
    }
}

/// Classifies the release API's status.
pub fn release_answer(status: u16) -> (r: ReleaseAnswer)
    ensures
        r == release_answer_spec(status),
{
    if status == 403 || status == 429 {
        ReleaseAnswer::RateLimited
    } else if 200 <= status && status <= 299 {
        ReleaseAnswer::Metadata
    } else {
        ReleaseAnswer::Failed
    }
}

/// A GitHub proxy's answer: any non-success status that carries rate-limit headers
/// is a rate limit.
pub open spec fn proxy_answer_spec(status: u16, has_rate_limit_headers: bool) -> ReleaseAnswer {
    if is_success_status(status) {
        ReleaseAnswer::Metadata
    } else if has_rate_limit_headers {
        ReleaseAnswer::RateLimited
    } else {
        ReleaseAnswer::Failed
    }
}

/// Classifies a GitHub proxy's status.
pub fn proxy_answer(status: u16, has_rate_limit_headers: bool) -> (r: ReleaseAnswer)
    ensures
        r == proxy_answer_spec(status, has_rate_limit_headers),
{
    if 200 <= status && status <= 299 {
        ReleaseAnswer::Metadata
    } else if has_rate_limit_headers {
        ReleaseAnswer::RateLimited
    } else {
        ReleaseAnswer::Failed
    }
}

/// Where a rate-limited release lookup turns.
#[derive(Clone, Copy, Debug, PartialEq, Eq, Structural)]
pub enum RateLimitFallback {
    /// The answer named no rate limit: an error.
    MissingHeaders,
    /// Retry the metadata through the configured GitHub proxies.
    GithubProxy,
    /// Read the asset from GitHub's release page.
    GithubReleasePage,
    /// Report the rate limit.
    GiveUp,
}

/// The fallback: none without rate-limit headers; on GitHub the proxies when they
/// are enabled, else the release page; elsewhere none.
pub open spec fn rate_limit_fallback_spec(host: ForgeHost, github_proxy: bool, has_rate_limit_headers: bool) -> RateLimitFallback {
    if !has_rate_limit_headers {
        RateLimitFallback::MissingHeaders
    } else if host == ForgeHost::GitHub {
        if github_proxy {
            RateLimitFallback::GithubProxy
        } else {
            RateLimitFallback::GithubReleasePage
        }
    } else {
        RateLimitFallback::GiveUp
    }
}

/// Chooses the fallback of a rate-limited release lookup.
pub fn rate_limit_fallback(host: ForgeHost, github_proxy: bool, has_rate_limit_headers: bool) -> (r: RateLimitFallback)
    ensures
        r == rate_limit_fallback_spec(host, github_proxy, has_rate_limit_headers),
{
    if !has_rate_limit_headers {
        RateLimitFallback::MissingHeaders
    } else if host == ForgeHost::GitHub {
        if github_proxy {
            RateLimitFallback::GithubProxy
        } else {
            RateLimitFallback::GithubReleasePage
        }
    } else {
        RateLimitFallback::GiveUp
    }
}

/// How one attempt through a GitHub proxy ended.
#[derive(Clone, Copy, Debug, PartialEq, Eq, Structural)]
pub enum ProxyOutcome {
    Succeeded,
    RateLimited,
    Failed,
}

/// The next step of the GitHub proxy fallback.
#[derive(Clone, Copy, Debug, PartialEq, Eq, Structural)]
pub enum ProxyStep {
    /// Try the prefix at this index.
    Try(usize),
    /// The attempt at this index succeeded: its result is the answer.
    Done(usize),
    /// Every prefix failed: report the error of the last rate-limited attempt.
    FailRateLimited(usize),
    /// Every prefix failed without a rate limit: report the last error.
    Fail(usize),
    /// There was no prefix to try.
    NoPrefixes,
}

/// The index of the first attempt with outcome `o` among the first `n`.
pub open spec fn first_outcome(outcomes: Seq<ProxyOutcome>, o: ProxyOutcome, n: nat) -> Option<int>
    decreases n,
{
    if n == 0 {
        None
    } else {
        match first_outcome(outcomes, o, (n - 1) as nat) {
            Some(i) => Some(i),
            None => if outcomes[n - 1] == o { Some(n - 1) } else { None },
        }
    }
}

/// The index of the last attempt with outcome `o` among the first `n`.
pub open spec fn last_outcome(outcomes: Seq<ProxyOutcome>, o: ProxyOutcome, n: nat) -> Option<int>
    decreases n,
{
    if n == 0 {
        None
    } else if outcomes[n - 1] == o {
        Some(n - 1)
    } else {
        last_outcome(outcomes, o, (n - 1) as nat)
    }
}

/// What follows the attempts made so far, with `prefix_count` prefixes configured:
/// the first success ends the fallback; otherwise the next prefix in order; once
/// all were tried, the last rate-limited attempt's error, else the last error.
pub open spec fn proxy_step_spec(outcomes: Seq<ProxyOutcome>, prefix_count: nat) -> ProxyStep {
    match first_outcome(outcomes, ProxyOutcome::Succeeded, outcomes.len()) {
        Some(i) => ProxyStep::Done(i as usize),
        None => if outcomes.len() < prefix_count {
            ProxyStep::Try(outcomes.len() as usize)
        } else {
            match last_outcome(outcomes, ProxyOutcome::RateLimited, outcomes.len()) {
                Some(i) => ProxyStep::FailRateLimited(i as usize),
                None => match last_outcome(outcomes, ProxyOutcome::Failed, outcomes.len()) {
                    Some(i) => ProxyStep::Fail(i as usize),
                    None => ProxyStep::NoPrefixes,
                },
            }
        },
    }
}

proof fn lemma_first_outcome_range(outcomes: Seq<ProxyOutcome>, o: ProxyOutcome, n: nat)
    ensures
        first_outcome(outcomes, o, n) matches Some(i) ==> 0 <= i < n && outcomes[i] == o,
        first_outcome(outcomes, o, n) is None ==> forall|j: int| 0 <= j < n ==> outcomes[j] != o,
    decreases n,
{
    if n > 0 {
        lemma_first_outcome_range(outcomes, o, (n - 1) as nat);
    }
}

proof fn lemma_last_outcome_range(outcomes: Seq<ProxyOutcome>, o: ProxyOutcome, n: nat)
    ensures
        last_outcome(outcomes, o, n) matches Some(i) ==> 0 <= i < n && outcomes[i] == o,
    decreases n,
{
    if n > 0 {
        lemma_last_outcome_range(outcomes, o, (n - 1) as nat);
    }
}

/// Decides the next step of the GitHub proxy fallback from the outcomes of the
/// attempts made so far, one per prefix, in order.
pub fn next_proxy_step(outcomes: &[ProxyOutcome], prefix_count: usize) -> (r: ProxyStep)
    ensures
        r == proxy_step_spec(outcomes@, prefix_count as nat),
{
    let n = outcomes.len();
    let mut i: usize = 0;
    let mut first_success: Option<usize> = None;
    let mut last_limited: Option<usize> = None;
    let mut last_failed: Option<usize> = None;
    while i < n
        invariant
            i <= n,
            n == outcomes@.len(),
            first_outcome(outcomes@, ProxyOutcome::Succeeded, i as nat) == (match first_success {
                Some(k) => Some(k as int),
                None => None::<int>,
            }),
            last_outcome(outcomes@, ProxyOutcome::RateLimited, i as nat) == (match last_limited {
                Some(k) => Some(k as int),
                None => None::<int>,
            }),
            last_outcome(outcomes@, ProxyOutcome::Failed, i as nat) == (match last_failed {
                Some(k) => Some(k as int),
                None => None::<int>,
            }),
        decreases n - i,
    {
        match outcomes[i] {
            ProxyOutcome::Succeeded => {
                if first_success.is_none() {
                    first_success = Some(i);
                }
            },
            ProxyOutcome::RateLimited => {
                last_limited = Some(i);
            },
            ProxyOutcome::Failed => {
                last_failed = Some(i);
            },
        }
        i = i + 1;
    }
    match first_success {
        Some(k) => ProxyStep::Done(k),
        None => if n < prefix_count {
            ProxyStep::Try(n)
        } else {
            match last_limited {
                Some(k) => ProxyStep::FailRateLimited(k),
                None => match last_failed {
                    Some(k) => ProxyStep::Fail(k),
                    None => ProxyStep::NoPrefixes,
                },
            }
        },
    }
}

/// The GitHub proxies are tried in the order they are configured until one works.
/// Whatever each prefix would answer (`results`, one per prefix): before the first
/// success every next step is the next prefix in order; the step after the first
/// success ends the fallback with it; and when none succeeds, the error reported is
/// that of the last rate-limited attempt, else the last failure.
pub proof fn law_proxies_tried_in_order(results: Seq<ProxyOutcome>, tried: nat)
    requires
        tried <= results.len(),
        forall|j: int| 0 <= j < tried ==> results[j] != ProxyOutcome::Succeeded,
    ensures
        tried < results.len() ==> proxy_step_spec(results.take(tried as int), results.len()) == ProxyStep::Try(tried as usize),
        tried < results.len() && results[tried as int] == ProxyOutcome::Succeeded ==> proxy_step_spec(
            results.take(tried as int + 1),
            results.len(),
        ) == ProxyStep::Done(tried as usize),
        tried == results.len() ==> proxy_step_spec(results, results.len()) == (match last_outcome(
            results,
            ProxyOutcome::RateLimited,
            results.len(),
        ) {
            Some(i) => ProxyStep::FailRateLimited(i as usize),
            None => match last_outcome(results, ProxyOutcome::Failed, results.len()) {
                Some(i) => ProxyStep::Fail(i as usize),
                None => ProxyStep::NoPrefixes,
            },
        }),
{
    let h = results.take(tried as int);
    lemma_first_outcome_range(h, ProxyOutcome::Succeeded, h.len());
    if tried < results.len() && results[tried as int] == ProxyOutcome::Succeeded {
        let h2 = results.take(tried as int + 1);
        lemma_first_outcome_prefix(h2, h, ProxyOutcome::Succeeded, tried);
        lemma_first_outcome_range(h, ProxyOutcome::Succeeded, tried);
    }
    if tried == results.len() {
        assert(h =~= results);
    }
}

/// The first-outcome search over the first `n` entries sees only those entries.
proof fn lemma_first_outcome_prefix(a: Seq<ProxyOutcome>, b: Seq<ProxyOutcome>, o: ProxyOutcome, n: nat)
    requires
        n <= a.len(),
        n <= b.len(),
        forall|j: int| 0 <= j < n ==> a[j] == b[j],
    ensures
        first_outcome(a, o, n) == first_outcome(b, o, n),
    decreases n,
{
    if n > 0 {
        lemma_first_outcome_prefix(a, b, o, (n - 1) as nat);
    }
}

} // verus!
