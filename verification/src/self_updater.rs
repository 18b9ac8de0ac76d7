//! Updating the updater itself: which release to take, whether it is newer, which
//! asset to download, and whether the download is intact.
use crate::text::{
    before_char, before_char_exec, first_char_at, cat, cat3, chars_of, contains, contains_seq, eq, lines, lines_exec,
    lit, string_of, trim_start_char, trim_start_char_exec, views, words, words_exec,
};
use sha2::Digest;
use vstd::prelude::*;

verus! {

/// The project's repository on GitLab.
pub const REPO: &'static str = "fpsys/fp-appimage-updater";

/// The repository path with its `/` URL-encoded.
pub const REPO_ENCODED: &'static str = "fpsys%2Ffp-appimage-updater";

/// The version of this build.
pub const CURRENT_VERSION: &'static str = "1.0.0";

/// The semantic version part of a release tag: without leading `v`s, before the first `-`.
pub open spec fn tag_semver(tag: Seq<char>) -> Seq<char> {
    before_char(trim_start_char(tag, 'v'), '-')
}

/// A release is an update when its semantic version differs from this build's.
pub open spec fn update_available_spec(tag: Seq<char>) -> bool {
    tag_semver(tag) != CURRENT_VERSION@
}

/// Whether the release `latest_tag` is a different version than the running one.
pub fn is_update_available(latest_tag: &str) -> (r: bool)
    ensures
        r == update_available_spec(latest_tag@),
{
    let semver = before_char_exec(&trim_start_char_exec(&chars_of(latest_tag), 'v'), '-');
    !eq(&semver, &chars_of(CURRENT_VERSION))
}

/// A release tag `v` + `x`, or `v` + `x` + `-` + a pre-release label, or plain `x`,
/// is an update exactly when the whole version `x` differs from this build's: every
/// component counts, not only the major one, and the label after `-` does not.
pub proof fn law_update_available_compares_whole_version(x: Seq<char>, label: Seq<char>)
    requires
        !x.contains('-'),
        x.len() == 0 || x[0] != 'v',
    ensures
        update_available_spec(x) <==> x != CURRENT_VERSION@,
        update_available_spec("v"@ + x) <==> x != CURRENT_VERSION@,
        update_available_spec("v"@ + x + "-"@ + label) <==> x != CURRENT_VERSION@,
{
    reveal_strlit("v");
    reveal_strlit("-");
    lemma_trim_one_v(x);
    lemma_trim_one_v(x + "-"@ + label);
    lemma_before_dash_absent(x);
    lemma_before_dash_first(x, label);
    assert("v"@ + x + "-"@ + label =~= "v"@ + (x + "-"@ + label));
}

/// Trimming leading `v`s from `v` + `x` leaves `x` when `x` does not start with `v`.
proof fn lemma_trim_one_v(x: Seq<char>)
    requires
        x.len() == 0 || x[0] != 'v',
    ensures
        trim_start_char("v"@ + x, 'v') == x,
        trim_start_char(x, 'v') == x,
{
    reveal_strlit("v");
    let s = "v"@ + x;
    assert(s.len() > 0 && s[0] == 'v');
    assert(s.drop_first() =~= x);
    assert(trim_start_char(x, 'v') == x);
}

/// A version with no `-` is kept whole.
proof fn lemma_before_dash_absent(x: Seq<char>)
    requires
        !x.contains('-'),
    ensures
        before_char(x, '-') == x,
{
    assert(!exists|i: int| first_char_at(x, '-', i)) by {
        assert forall|i: int| !first_char_at(x, '-', i) by {
            if first_char_at(x, '-', i) {
                assert(x.contains(x[i]));
            }
        }
    }
}

/// The part before the first `-` of `x` + `-` + `label`, when `x` has no `-`, is `x`.
proof fn lemma_before_dash_first(x: Seq<char>, label: Seq<char>)
    requires
        !x.contains('-'),
    ensures
        before_char(x + "-"@ + label, '-') == x,
{
    reveal_strlit("-");
    let s = x + "-"@ + label;
    let n = x.len() as int;
    assert forall|j: int| 0 <= j < n implies s[j] != '-' by {
        assert(s[j] == x[j]);
        assert(x.contains(x[j]));
    }
    assert(first_char_at(s, '-', n));
    let i = choose|i: int| first_char_at(s, '-', i);
    assert(i == n) by {
        if i < n {
            assert(s[i] != '-');
        } else if i > n {
            assert(s[n] == '-');
        }
    }
    assert(s.take(n) =~= x);
}

/// What a self-update has to do.
#[derive(Clone, Copy, Debug, PartialEq, Eq, Structural)]
pub enum SelfUpdatePlan {
    AlreadyCurrent,
    UpdateAvailable,
    UpdateAvailableButBinaryNotWritable,
}

/// Whether routine messages are printed.
#[derive(Clone, Copy, Debug, PartialEq, Eq, Structural)]
pub enum SelfUpdateMode {
    Interactive,
    QuietIfCurrent,
}

/// The plan for the release `latest_tag`, given whether the running binary can be
/// replaced by the user.
pub fn plan_self_update(binary_writable: bool, latest_tag: &str) -> (r: SelfUpdatePlan)
    ensures
        !update_available_spec(latest_tag@) ==> r == SelfUpdatePlan::AlreadyCurrent,
        update_available_spec(latest_tag@) && !binary_writable ==> r == SelfUpdatePlan::UpdateAvailableButBinaryNotWritable,
        update_available_spec(latest_tag@) && binary_writable ==> r == SelfUpdatePlan::UpdateAvailable,
{
    if !is_update_available(latest_tag) {
        return SelfUpdatePlan::AlreadyCurrent;
    }
    if !binary_writable {
        return SelfUpdatePlan::UpdateAvailableButBinaryNotWritable;
    }
    SelfUpdatePlan::UpdateAvailable
}

/// The start message is printed in interactive mode only.
pub fn should_print_start_message(mode: SelfUpdateMode) -> (r: bool)
    ensures
        r == (mode == SelfUpdateMode::Interactive),
{
    match mode {
        SelfUpdateMode::Interactive => true,
        SelfUpdateMode::QuietIfCurrent => false,
    }
}

/// The already-current message is printed in interactive mode only.
pub fn should_print_current_message(mode: SelfUpdateMode) -> (r: bool)
    ensures
        r == (mode == SelfUpdateMode::Interactive),
{
    match mode {
        SelfUpdateMode::Interactive => true,
        SelfUpdateMode::QuietIfCurrent => false,
    }
}

/// The release asset suffix for a CPU architecture and C library.
pub open spec fn asset_suffix_spec(arch: Seq<char>, musl: bool) -> Result<Seq<char>, Seq<char>> {
    if arch == "x86_64"@ {
        Ok(if musl { "x64-musl"@ } else { "x64"@ })
    } else if arch == "aarch64"@ {
        Ok(if musl { "ARM-musl"@ } else { "ARM"@ })
    } else {
        Err("Unsupported architecture for self-update: "@ + arch)
    }
}

/// The architecture-specific suffix of the published binaries.
pub fn asset_suffix(arch: &str, musl: bool) -> (r: Result<&'static str, String>)
    ensures
        match asset_suffix_spec(arch@, musl) {
            Ok(s) => r matches Ok(x) && x@ == s,
            Err(e) => r matches Err(m) && m@ == e,
        },
{
    let a = chars_of(arch);
    proof {
        reveal_strlit("x86_64");
        reveal_strlit("aarch64");
    }
    if eq(&a, &chars_of("x86_64")) {
        if musl { Ok("x64-musl") } else { Ok("x64") }
    } else if eq(&a, &chars_of("aarch64")) {
        if musl { Ok("ARM-musl") } else { Ok("ARM") }
    } else {
        Err(string_of(&cat(&lit("Unsupported architecture for self-update: "), &a)))
    }
}

/// The GitLab API address that lists releases (`pre_release`) or names the latest one.
pub open spec fn releases_api_url_spec(pre_release: bool) -> Seq<char> {
    if pre_release {
        "https://gitlab.com/api/v4/projects/"@ + REPO_ENCODED@
            + "/releases?order_by=released_at&sort=desc&per_page=100"@
    } else {
        "https://gitlab.com/api/v4/projects/"@ + REPO_ENCODED@ + "/releases/permalink/latest"@
    }
}

/// The GitLab API address to ask for the release to update to.
pub fn releases_api_url(pre_release: bool) -> (r: String)
    ensures
        r@ == releases_api_url_spec(pre_release),
{
    let tail = if pre_release {
        lit("/releases?order_by=released_at&sort=desc&per_page=100")
    } else {
        lit("/releases/permalink/latest")
    };
    string_of(&cat3(&lit("https://gitlab.com/api/v4/projects/"), &chars_of(REPO_ENCODED), &tail))
}

/// `i` is the first release tag that names a release candidate.
pub open spec fn first_rc_at(tags: Seq<Option<Seq<char>>>, i: int) -> bool {
    0 <= i < tags.len() && (tags[i] matches Some(t) && contains_seq(t, "-RC"@))
        && forall|j: int| 0 <= j < i ==> !(#[trigger] tags[j] matches Some(t) && contains_seq(t, "-RC"@))
}

/// The views of optional strings.
pub open spec fn opt_views(v: Seq<Option<String>>) -> Seq<Option<Seq<char>>> {
    v.map_values(|o: Option<String>| match o {
        Some(s) => Some(s@),
        None => None,
    })
}

/// The newest pre-release among the `tag_name`s of a release list (newest first;
/// `None` where a release has no string tag).
pub fn first_prerelease_tag(tags: &[Option<String>]) -> (r: Result<String, String>)
    ensures
        match r {
            Ok(t) => exists|i: int| first_rc_at(opt_views(tags@), i) && opt_views(tags@)[i] == Some(t@),
            Err(e) => !exists|i: int| first_rc_at(opt_views(tags@), i) && e@ == "No pre-releases found on GitLab"@,
        },
{
    let ghost tv = opt_views(tags@);
    let mut i: usize = 0;
    while i < tags.len()
        invariant
            i <= tags.len(),
            tv == opt_views(tags@),
            forall|j: int| 0 <= j < i ==> !(#[trigger] tv[j] matches Some(t) && contains_seq(t, "-RC"@)),
        decreases tags.len() - i,
    {
        match &tags[i] {
            Some(t) => {
                if contains(&chars_of(t.as_str()), &lit("-RC")) {
                    assert(first_rc_at(tv, i as int));
                    return Ok(t.clone());
                }
            },
            None => {},
        }
        i = i + 1;
    }
    proof {
        assert forall|k: int| !first_rc_at(tv, k) by {
            if 0 <= k < tv.len() {
                assert(!(tv[k] matches Some(t) && contains_seq(t, "-RC"@)));
            }
        }
    }
    Err(String::from_str("No pre-releases found on GitLab"))
}

/// The binary's asset name and the download addresses of it and of the checksums.
pub open spec fn download_urls_spec(latest_tag: Seq<char>, suffix: Seq<char>) -> (Seq<char>, Seq<char>, Seq<char>) {
    let name = "fp-appimage-updater."@ + suffix;
    let base = "https://gitlab.com/"@ + REPO@ + "/-/releases/"@ + latest_tag + "/downloads/bin/"@;
    (name, base + name, base + "checksums.txt"@)
}

/// The asset name, the binary's download URL and the checksums' URL for a release.
pub fn self_update_urls(latest_tag: &str, suffix: &str) -> (r: (String, String, String))
    ensures
        (r.0@, r.1@, r.2@) == download_urls_spec(latest_tag@, suffix@),
{
    let name = cat(&lit("fp-appimage-updater."), &chars_of(suffix));
    let base = cat3(&cat(&lit("https://gitlab.com/"), &chars_of(REPO)), &lit("/-/releases/"), &cat(&chars_of(latest_tag), &lit("/downloads/bin/")));
    let url = cat(&base, &name);
    let sums = cat(&base, &lit("checksums.txt"));
    assert(base@ =~= "https://gitlab.com/"@ + REPO@ + "/-/releases/"@ + latest_tag@ + "/downloads/bin/"@);
    (string_of(&name), string_of(&url), string_of(&sums))
}

/// The SHA-256 digest of `data` (`sha2::Sha256::digest`).
pub uninterp spec fn sha256_digest(data: Seq<u8>) -> Seq<u8>;

/// Computes SHA-256 with `sha2::Sha256::digest`; the claim is that the result is the
/// digest of the bytes given, named `sha256_digest`, and is 32 bytes long (the
/// crate's output type is a 32-byte array).
#[verifier::external_body]
fn sha256(data: &[u8]) -> (r: Vec<u8>)
    ensures
        r@ == sha256_digest(data@),
        r@.len() == 32,
{
    sha2::Sha256::digest(data).to_vec()
}

/// The lowercase hexadecimal digit for `d < 16`.
pub open spec fn hex_digit(d: u8) -> char {
    if d < 10 { ((d + 48) as u8) as char } else { ((d + 87) as u8) as char }
}

/// Lowercase hexadecimal text of bytes, two digits per byte.
pub open spec fn hex_of(data: Seq<u8>) -> Seq<char>
    decreases data.len(),
{
    if data.len() == 0 {
        seq![]
    } else {
        hex_of(data.drop_last()) + seq![hex_digit(data.last() / 16), hex_digit(data.last() % 16)]
    }
}

/// Encodes bytes with `hex::encode`, which writes each byte as two lowercase digits,
/// high nibble first.
#[verifier::external_body]
fn hex_encode(data: &[u8]) -> (r: String)
    ensures
        r@ == hex_of(data@),
{
    hex::encode(data)
}

/// The lowercase hexadecimal SHA-256 of `data`.
pub fn sha256_hex(data: &[u8]) -> (r: String)
    ensures
        r@ == hex_of(sha256_digest(data@)),
        r@.len() == 64,
{
    let digest = sha256(data);
    proof {
        lemma_hex_len(digest@);
    }
    hex_encode(digest.as_slice())
}

/// Hexadecimal text is twice as long as the bytes it encodes.
proof fn lemma_hex_len(data: Seq<u8>)
    ensures
        hex_of(data).len() == 2 * data.len(),
    decreases data.len(),
{
    if data.len() > 0 {
        lemma_hex_len(data.drop_last());
    }
}

/// The outcome of looking up `asset_name` in the checksum lines from line `i` on: the
/// first line of exactly two words whose second is the asset decides.
pub open spec fn checksum_from(ls: Seq<Seq<char>>, i: int, asset_name: Seq<char>, hash: Seq<char>) -> Result<(), Seq<char>>
    decreases ls.len() - i,
{
    if i >= ls.len() {
        Err("No checksum found for "@ + asset_name + " in checksums.txt"@)
    } else {
        let w = words(ls[i]);
        if w.len() == 2 && w[1] == asset_name {
            if w[0] == hash {
                Ok(())
            } else {
                Err("Checksum mismatch for "@ + asset_name + ": expected "@ + w[0] + ", found "@ + hash)
            }
        } else {
            checksum_from(ls, i + 1, asset_name, hash)
        }
    }
}

/// Checks the hexadecimal digest `hash_hex` against the `checksums.txt` content.
pub fn check_checksum(hash_hex: &str, checksums_content: &str, asset_name: &str) -> (r: Result<(), String>)
    ensures
        match checksum_from(lines(checksums_content@), 0, asset_name@, hash_hex@) {
            Ok(_) => r is Ok,
            Err(e) => r matches Err(m) && m@ == e,
        },
{
    let ls = lines_exec(&chars_of(checksums_content));
    let hash = chars_of(hash_hex);
    let asset = chars_of(asset_name);
    let mut i: usize = 0;
    while i < ls.len()
        invariant
            i <= ls.len(),
            views(ls@) == lines(checksums_content@),
            hash@ == hash_hex@,
            asset@ == asset_name@,
            checksum_from(views(ls@), i as int, asset@, hash@) == checksum_from(views(ls@), 0, asset@, hash@),
        decreases ls.len() - i,
    {
        let w = words_exec(&ls[i]);
        assert(views(ls@)[i as int] == ls@[i as int]@);
        if w.len() == 2 && eq(&w[1], &asset) {
            assert(views(w@)[1] == w@[1]@ && views(w@)[0] == w@[0]@);
            if eq(&w[0], &hash) {
                return Ok(());
            }
            let head = cat3(&lit("Checksum mismatch for "), &asset, &lit(": expected "));
            let msg = cat3(&head, &w[0], &cat(&lit(", found "), &hash));
            assert(msg@ =~= "Checksum mismatch for "@ + asset@ + ": expected "@ + w@[0]@ + ", found "@ + hash@);
            return Err(string_of(&msg));
        }
        proof {
            if w@.len() == 2 {
                assert(views(w@)[1] == w@[1]@);
            }
        }
        i = i + 1;
    }
    Err(string_of(&cat3(&lit("No checksum found for "), &asset, &lit(" in checksums.txt"))))
}

/// Checks the downloaded binary's SHA-256 against its line in `checksums.txt`.
pub fn verify_checksum(binary: &[u8], checksums_content: &str, asset_name: &str) -> (r: Result<(), String>)
    ensures
        match checksum_from(lines(checksums_content@), 0, asset_name@, hex_of(sha256_digest(binary@))) {
            Ok(_) => r is Ok,
            Err(e) => r matches Err(m) && m@ == e,
        },
{
    let hash = sha256_hex(binary);
    check_checksum(hash.as_str(), checksums_content, asset_name)
}

} // verus!
