//! Names and messages of desktop integration: sanitized application names, the
//! assets left by older names, the host's OS id, extraction errors, paths.
use crate::config::{opt_view, AppConfig, GlobalConfig};
use crate::state::AppState;
use crate::text::{
    cat, cat3, chars_of, find_char, chars_of_string, contains, contains_seq, eq, eq_ignore_ascii_case, find_char_exec,
    first_char_at, is_ascii_alnum, is_prefix, lines, lines_exec, lit, lower, lower_char, lower_char_exec,
    strip_prefix, strip_prefix_exec, string_of, to_lower, trim, trim_char, trim_char_exec,
    trim_end_char, trim_exec, trim_start_char, views, starts_with, ends_with, is_suffix, slice_copy,
};
use vstd::prelude::*;

verus! {

// ---------------------------------------------------------------------------
// Sanitized names
// ---------------------------------------------------------------------------

/// ASCII white space in the sense of `char::is_ascii_whitespace`.
pub open spec fn is_ascii_ws(c: char) -> bool {
    c == ' ' || c == '\t' || c == '\n' || c == '\x0C' || c == '\r'
}

/// Characters that become a single `-` in a sanitized name.
pub open spec fn is_name_separator(c: char) -> bool {
    is_ascii_ws(c) || c == '-' || c == '_' || c == '.'
}

/// The characters kept from `s`: ASCII letters and digits lowercased, and one `-` for
/// each run of separators.
pub open spec fn sanitize_scan(s: Seq<char>) -> Seq<char>
    decreases s.len(),
{
    if s.len() == 0 {
        seq![]
    } else {
        let p = sanitize_scan(s.drop_last());
        let c = s.last();
        if is_ascii_alnum(c) {
            p.push(lower_char(c))
        } else if is_name_separator(c) && !(p.len() > 0 && p.last() == '-') {
            p.push('-')
        } else {
            p
        }
    }
}

/// The sanitized form of an application name: the kept characters without leading
/// or trailing `-`, or `app` when nothing is left.
pub open spec fn sanitized_spec(name: Seq<char>) -> Seq<char> {
    let t = trim_char(sanitize_scan(name), '-');
    if t.len() == 0 { "app"@ } else { t }
}

/// A lowercase ASCII letter, a digit or `-`.
pub open spec fn is_name_char(c: char) -> bool {
    ('a' <= c && c <= 'z') || ('0' <= c && c <= '9') || c == '-'
}

/// The shape of every sanitized name: not empty, made of lowercase letters, digits and
/// `-`, never starting or ending with `-`, never holding `--`.
pub open spec fn well_sanitized(t: Seq<char>) -> bool {
    &&& t.len() > 0
    &&& forall|i: int| 0 <= i < t.len() ==> is_name_char(#[trigger] t[i])
    &&& t[0] != '-'
    &&& t.last() != '-'
    &&& forall|i: int| 0 <= i < t.len() - 1 ==> !(#[trigger] t[i] == '-' && t[i + 1] == '-')
}

/// Lowercase name characters without `--`.
pub open spec fn dash_runs_single(t: Seq<char>) -> bool {
    &&& forall|i: int| 0 <= i < t.len() ==> is_name_char(#[trigger] t[i])
    &&& forall|i: int| 0 <= i < t.len() - 1 ==> !(#[trigger] t[i] == '-' && t[i + 1] == '-')
}

proof fn lemma_scan_shape(s: Seq<char>)
    ensures
        dash_runs_single(sanitize_scan(s)),
    decreases s.len(),
{
    if s.len() > 0 {
        lemma_scan_shape(s.drop_last());
        let p = sanitize_scan(s.drop_last());
        let r = sanitize_scan(s);
        let c = s.last();
        if is_ascii_alnum(c) {
            assert(is_name_char(lower_char(c)));
            assert forall|i: int| 0 <= i < r.len() - 1 implies !(#[trigger] r[i] == '-' && r[i + 1] == '-') by {
                if i < p.len() - 1 {
                    assert(r[i] == p[i] && r[i + 1] == p[i + 1]);
                }
            }
            assert forall|i: int| 0 <= i < r.len() implies is_name_char(#[trigger] r[i]) by {
                if i < p.len() {
                    assert(r[i] == p[i]);
                }
            }
        } else if is_name_separator(c) && !(p.len() > 0 && p.last() == '-') {
            assert forall|i: int| 0 <= i < r.len() - 1 implies !(#[trigger] r[i] == '-' && r[i + 1] == '-') by {
                if i < p.len() - 1 {
                    assert(r[i] == p[i] && r[i + 1] == p[i + 1]);
                } else {
                    assert(r[i] == p.last());
                }
            }
            assert forall|i: int| 0 <= i < r.len() implies is_name_char(#[trigger] r[i]) by {
                if i < p.len() {
                    assert(r[i] == p[i]);
                }
            }
        }
    }
}

proof fn lemma_trim_start_is_skip(s: Seq<char>, c: char) -> (k: int)
    ensures
        0 <= k <= s.len(),
        trim_start_char(s, c) == s.skip(k),
        k < s.len() ==> s[k] != c,
    decreases s.len(),
{
    if s.len() > 0 && s[0] == c {
        let k1 = lemma_trim_start_is_skip(s.drop_first(), c);
        assert(s.drop_first().skip(k1) =~= s.skip(k1 + 1));
        k1 + 1
    } else {
        assert(s.skip(0) =~= s);
        0
    }
}

proof fn lemma_trim_end_is_take(s: Seq<char>, c: char) -> (k: int)
    ensures
        0 <= k <= s.len(),
        trim_end_char(s, c) == s.take(k),
        k > 0 ==> s[k - 1] != c,
    decreases s.len(),
{
    if s.len() > 0 && s.last() == c {
        let k1 = lemma_trim_end_is_take(s.drop_last(), c);
        assert(s.drop_last().take(k1) =~= s.take(k1));
        k1
    } else {
        assert(s.take(s.len() as int) =~= s);
        s.len() as int
    }
}

proof fn lemma_sanitized_shape(name: Seq<char>)
    ensures
        well_sanitized(sanitized_spec(name)),
{
    let p = sanitize_scan(name);
    lemma_scan_shape(name);
    let a = lemma_trim_start_is_skip(p, '-');
    let u = p.skip(a);
    let b = lemma_trim_end_is_take(u, '-');
    let t = u.take(b);
    assert(trim_char(p, '-') == t);
    if t.len() == 0 {
        reveal_strlit("app");
        let r = "app"@;
        assert(r.len() == 3);
        assert(r[0] == 'a' && r[1] == 'p' && r[2] == 'p');
    } else {
        assert forall|i: int| 0 <= i < t.len() implies is_name_char(#[trigger] t[i]) by {
            assert(t[i] == p[a + i]);
        }
        assert forall|i: int| 0 <= i < t.len() - 1 implies !(#[trigger] t[i] == '-' && t[i + 1] == '-') by {
            assert(t[i] == p[a + i] && t[i + 1] == p[a + i + 1]);
        }
        assert(t[0] == u[0]);
    }
}

proof fn lemma_scan_fixes_sanitized(t: Seq<char>, k: int)
    requires
        well_sanitized(t),
        0 <= k <= t.len(),
    ensures
        sanitize_scan(t.take(k)) == t.take(k),
    decreases k,
{
    if k > 0 {
        lemma_scan_fixes_sanitized(t, k - 1);
        let s = t.take(k);
        assert(s.drop_last() =~= t.take(k - 1));
        let c = s.last();
        assert(c == t[k - 1]);
        assert(is_name_char(c));
        if c == '-' {
            assert(k - 1 > 0);
            assert(!(t[k - 2] == '-' && t[k - 1] == '-'));
            assert(t.take(k - 1).last() == t[k - 2]);
            assert(t.take(k - 1).push('-') =~= s);
        } else {
            assert(is_ascii_alnum(c));
            assert(lower_char(c) == c);
            assert(t.take(k - 1).push(c) =~= s);
        }
    } else {
        assert(t.take(0) =~= Seq::<char>::empty());
    }
}

/// A sanitized name is its own sanitized form.
proof fn lemma_sanitized_fixed(t: Seq<char>)
    requires
        well_sanitized(t),
    ensures
        sanitized_spec(t) == t,
{
    lemma_scan_fixes_sanitized(t, t.len() as int);
    assert(t.take(t.len() as int) =~= t);
    assert(trim_start_char(t, '-') == t);
    assert(trim_end_char(t, '-') == t);
}

/// The ASCII letters and digits of `s`, in order.
pub open spec fn alnum_chars(s: Seq<char>) -> Seq<char>
    decreases s.len(),
{
    if s.len() == 0 {
        seq![]
    } else {
        let p = alnum_chars(s.drop_last());
        if is_ascii_alnum(s.last()) { p.push(s.last()) } else { p }
    }
}

proof fn lemma_alnum_concat(a: Seq<char>, b: Seq<char>)
    ensures
        alnum_chars(a + b) == alnum_chars(a) + alnum_chars(b),
    decreases b.len(),
{
    if b.len() == 0 {
        assert(a + b =~= a);
        assert(alnum_chars(a) + alnum_chars(b) =~= alnum_chars(a));
    } else {
        lemma_alnum_concat(a, b.drop_last());
        assert((a + b).drop_last() =~= a + b.drop_last());
        assert((a + b).last() == b.last());
        if is_ascii_alnum(b.last()) {
            assert(alnum_chars(a) + alnum_chars(b) =~= (alnum_chars(a) + alnum_chars(b.drop_last())).push(b.last()));
        }
    }
}

proof fn lemma_lower_push(p: Seq<char>, c: char)
    ensures
        lower(p.push(c)) == lower(p).push(lower_char(c)),
{
    assert(lower(p.push(c)) =~= lower(p).push(lower_char(c)));
}

proof fn lemma_lower_char_alnum(c: char)
    requires
        is_ascii_alnum(c),
    ensures
        is_ascii_alnum(lower_char(c)),
        lower_char(c) != '-',
{
    if 'A' <= c && c <= 'Z' {
        assert(('A' as u32) <= (c as u32) <= ('Z' as u32));
        assert((((c as u32) + 32) as char) as u32 == (c as u32) + 32);
    }
}

/// The letters and digits kept by the scan are the name's, lowercased.
proof fn lemma_scan_alnums(s: Seq<char>)
    ensures
        alnum_chars(sanitize_scan(s)) == lower(alnum_chars(s)),
    decreases s.len(),
{
    if s.len() == 0 {
        assert(lower(Seq::<char>::empty()) =~= Seq::<char>::empty());
    } else {
        lemma_scan_alnums(s.drop_last());
        let p = sanitize_scan(s.drop_last());
        let c = s.last();
        if is_ascii_alnum(c) {
            lemma_lower_char_alnum(c);
            assert(p.push(lower_char(c)).drop_last() =~= p);
            lemma_lower_push(alnum_chars(s.drop_last()), c);
        } else if is_name_separator(c) && !(p.len() > 0 && p.last() == '-') {
            assert(p.push('-').drop_last() =~= p);
        }
    }
}

proof fn lemma_trim_end_alnums(s: Seq<char>)
    ensures
        alnum_chars(trim_end_char(s, '-')) == alnum_chars(s),
    decreases s.len(),
{
    if s.len() > 0 && s.last() == '-' {
        lemma_trim_end_alnums(s.drop_last());
    }
}

proof fn lemma_trim_start_alnums(s: Seq<char>)
    ensures
        alnum_chars(trim_start_char(s, '-')) == alnum_chars(s),
    decreases s.len(),
{
    if s.len() > 0 && s[0] == '-' {
        lemma_trim_start_alnums(s.drop_first());
        let head = seq![s[0]];
        assert(s =~= head + s.drop_first());
        lemma_alnum_concat(head, s.drop_first());
        assert(head.drop_last() =~= Seq::<char>::empty());
        assert(alnum_chars(head.drop_last()) == Seq::<char>::empty());
        assert(head.last() == '-');
        assert(!is_ascii_alnum(head.last()));
        assert(alnum_chars(head) =~= Seq::<char>::empty());
        assert(Seq::<char>::empty() + alnum_chars(s.drop_first()) =~= alnum_chars(s.drop_first()));
    }
}

proof fn lemma_alnum_present(s: Seq<char>, i: int)
    requires
        0 <= i < s.len(),
        is_ascii_alnum(s[i]),
    ensures
        alnum_chars(s).len() > 0,
    decreases s.len(),
{
    if i < s.len() - 1 {
        lemma_alnum_present(s.drop_last(), i);
    }
}

/// Every sanitized name is well-formed, and sanitizing it again changes nothing; its
/// letters and digits are the name's, lowercased and in order, and a name without
/// letters or digits becomes `app`.
pub proof fn law_sanitized_name_shape_and_idempotent(name: Seq<char>)
    ensures
        well_sanitized(sanitized_spec(name)),
        sanitized_spec(sanitized_spec(name)) == sanitized_spec(name),
        alnum_chars(name).len() > 0 ==> alnum_chars(sanitized_spec(name)) == lower(alnum_chars(name)),
        alnum_chars(name).len() == 0 ==> sanitized_spec(name) == "app"@,
{
    lemma_sanitized_shape(name);
    lemma_sanitized_fixed(sanitized_spec(name));
    let p = sanitize_scan(name);
    let t = trim_char(p, '-');
    lemma_scan_alnums(name);
    lemma_trim_start_alnums(p);
    lemma_trim_end_alnums(trim_start_char(p, '-'));
    assert(alnum_chars(t) == lower(alnum_chars(name)));
    if alnum_chars(name).len() > 0 {
        assert(lower(alnum_chars(name)).len() > 0);
        assert(t.len() > 0);
    } else {
        assert(lower(alnum_chars(name)).len() == 0);
        if t.len() > 0 {
            assert(sanitized_spec(name) == t);
            assert(is_name_char(t[0]) && t[0] != '-');
            assert(is_ascii_alnum(t[0]));
            lemma_alnum_present(t, 0);
            assert(false);
        }
    }
}

/// Whether an application gets a symlink: its own setting, else the global one.
pub open spec fn wants_symlink(app: AppConfig, global: GlobalConfig) -> bool {
    match app.create_symlink {
        Some(b) => b,
        None => global.create_symlinks,
    }
}

/// The name of the symlink made for `app` in the symlink directory, if it gets one:
/// its sanitized name.
pub fn symlink_name(app: &AppConfig, global: &GlobalConfig) -> (r: Option<String>)
    ensures
        match r {
            Some(n) => wants_symlink(*app, *global) && n@ == sanitized_spec(app.name@),
            None => !wants_symlink(*app, *global),
        },
{
    let wanted = match app.create_symlink {
        Some(b) => b,
        None => global.create_symlinks,
    };
    if wanted {
        Some(sanitized_app_name(app.name.as_str()))
    } else {
        None
    }
}

/// The name used for desktop files, icons and symlinks of an application.
pub fn sanitized_app_name(name: &str) -> (r: String)
    ensures
        r@ == sanitized_spec(name@),
        well_sanitized(r@),
{
    let s = chars_of(name);
    let mut out: Vec<char> = Vec::new();
    let mut i: usize = 0;
    while i < s.len()
        invariant
            i <= s.len(),
            out@ == sanitize_scan(s@.take(i as int)),
        decreases s.len() - i,
    {
        let c = s[i];
        proof {
            assert(s@.take(i + 1).drop_last() =~= s@.take(i as int));
            assert(s@.take(i + 1).last() == c);
        }
        if ('a' <= c && c <= 'z') || ('A' <= c && c <= 'Z') || ('0' <= c && c <= '9') {
            out.push(lower_char_exec(c));
        } else if (c == ' ' || c == '\t' || c == '\n' || c == '\x0C' || c == '\r' || c == '-' || c == '_' || c == '.')
            && !(out.len() > 0 && out[out.len() - 1] == '-') {
            out.push('-');
        }
        i = i + 1;
    }
    assert(s@.take(s.len() as int) =~= s@);
    let t = trim_char_exec(&out, '-');
    proof {
        lemma_sanitized_shape(name@);
    }
    if t.len() == 0 {
        String::from_str("app")
    } else {
        string_of(&t)
    }
}

// ---------------------------------------------------------------------------
// Legacy asset names
// ---------------------------------------------------------------------------

/// The names under which older versions may have left desktop files and icons: the
/// raw application name, and the previously recorded sanitized name, when they differ
/// from the current sanitized name (and from each other).
pub open spec fn legacy_names_spec(app_name: Seq<char>, previous: Option<Seq<char>>, sanitized: Seq<char>) -> Seq<Seq<char>> {
    let first: Seq<Seq<char>> = if app_name != sanitized { seq![app_name] } else { seq![] };
    match previous {
        Some(p) => if p != sanitized && p != app_name { first.push(p) } else { first },
        None => first,
    }
}

/// The asset names that earlier naming schemes may have left behind.
pub fn legacy_desktop_asset_names(app: &AppConfig, state: Option<&AppState>, sanitized_name: &str) -> (r: Vec<String>)
    ensures
        crate::config::strings_view(r@) == legacy_names_spec(
            app.name@,
            match state {
                Some(s) => crate::config::opt_view(s.sanitized_name),
                None => None,
            },
            sanitized_name@,
        ),
{
    let mut names: Vec<String> = Vec::new();
    let app_name = chars_of_string(&app.name);
    let sanitized = chars_of(sanitized_name);
    if !eq(&app_name, &sanitized) {
        names.push(app.name.clone());
    }
    let ghost first = crate::config::strings_view(names@);
    match state {
        Some(s) => match &s.sanitized_name {
            Some(previous) => {
                let p = chars_of_string(previous);
                if !eq(&p, &sanitized) && !eq(&p, &app_name) {
                    names.push(previous.clone());
                    assert(crate::config::strings_view(names@) =~= first.push(p@));
                }
            },
            None => {},
        },
        None => {},
    }
    proof {
        if app_name@ != sanitized@ {
            assert(first =~= seq![app.name@]);
        } else {
            assert(first =~= Seq::<Seq<char>>::empty());
        }
    }
    names
}

// ---------------------------------------------------------------------------
// Host detection and extraction messages
// ---------------------------------------------------------------------------

/// The `ID=` value of the first line that sets it, unquoted and lowercased.
pub open spec fn os_release_id_from(ls: Seq<Seq<char>>) -> Option<Seq<char>>
    decreases ls.len(),
{
    if ls.len() == 0 {
        None
    } else {
        match strip_prefix(ls[0], "ID="@) {
            Some(v) => Some(lower(trim_char(v, '"'))),
            None => os_release_id_from(ls.drop_first()),
        }
    }
}

/// The distribution id in the content of `/etc/os-release`.
pub fn parse_os_release_id(content: &str) -> (r: Option<String>)
    ensures
        match os_release_id_from(lines(content@)) {
            Some(id) => r matches Some(x) && x@ == id,
            None => r is None,
        },
{
    let ls = lines_exec(&chars_of(content));
    let mut i: usize = 0;
    assert(views(ls@).skip(0) =~= views(ls@));
    while i < ls.len()
        invariant
            i <= ls.len(),
            views(ls@) == lines(content@),
            os_release_id_from(views(ls@).skip(i as int)) == os_release_id_from(views(ls@)),
        decreases ls.len() - i,
    {
        let ghost rest = views(ls@).skip(i as int);
        assert(rest[0] == ls@[i as int]@);
        assert(rest.drop_first() =~= views(ls@).skip(i + 1));
        match strip_prefix_exec(&ls[i], &lit("ID=")) {
            Some(v) => {
                return Some(string_of(&to_lower(&trim_char_exec(&v, '"'))));
            },
            None => {},
        }
        i = i + 1;
    }
    None
}

/// The explanation for an AppImage that `appimage-run` cannot read (not SquashFS).
pub open spec fn nixos_message_spec(stderr: Seq<char>) -> Option<Seq<char>> {
    if contains_seq(lower(stderr), "can't find a valid squashfs superblock"@) {
        Some("this AppImage format is not supported on NixOS in this app yet: appimage-run expected a SquashFS-based AppImage, but this file does not appear to use SquashFS"@)
    } else {
        None
    }
}

/// Recognizes the `appimage-run` error for AppImages that are not SquashFS-based.
pub fn nixos_unsupported_appimage_message(stderr: &str) -> (r: Option<String>)
    ensures
        match nixos_message_spec(stderr@) {
            Some(m) => r matches Some(x) && x@ == m,
            None => r is None,
        },
{
    if contains(&to_lower(&chars_of(stderr)), &lit("can't find a valid squashfs superblock")) {
        Some(String::from_str("this AppImage format is not supported on NixOS in this app yet: appimage-run expected a SquashFS-based AppImage, but this file does not appear to use SquashFS"))
    } else {
        None
    }
}

/// The first line of `text`, or `text` when it has none.
pub open spec fn first_line_spec(text: Seq<char>) -> Seq<char> {
    if lines(text).len() > 0 { lines(text)[0] } else { text }
}

/// The first line of `text`.
pub fn first_line(text: &str) -> (r: String)
    ensures
        r@ == first_line_spec(text@),
{
    let ls = lines_exec(&chars_of(text));
    if ls.len() > 0 {
        assert(views(ls@)[0] == ls@[0]@);
        string_of(&ls[0])
    } else {
        String::from_str(text)
    }
}

/// ` (first line of stderr)`, or nothing for an empty stderr.
pub open spec fn stderr_detail_spec(stderr: Seq<char>) -> Seq<char> {
    if stderr.len() == 0 { seq![] } else { " ("@ + first_line_spec(stderr) + ")"@ }
}

/// The detail appended to an extraction error.
pub fn format_stderr_detail(stderr: &str) -> (r: String)
    ensures
        r@ == stderr_detail_spec(stderr@),
{
    if stderr.is_empty() {
        String::new()
    } else {
        let l = first_line(stderr);
        string_of(&cat3(&lit(" ("), &chars_of_string(&l), &lit(")")))
    }
}

// ---------------------------------------------------------------------------
// Paths
// ---------------------------------------------------------------------------

/// `rel` joined onto `base` as `Path::join` does: an absolute `rel` replaces `base`,
/// otherwise a `/` separates them unless `base` is empty or already ends with one.
pub open spec fn join_path(base: Seq<char>, rel: Seq<char>) -> Seq<char> {
    if rel.len() > 0 && rel[0] == '/' {
        rel
    } else if base.len() == 0 || base.last() == '/' {
        base + rel
    } else {
        base + "/"@ + rel
    }
}

/// Joins `rel` onto `base`.
pub fn join_path_exec(base: &str, rel: &str) -> (r: String)
    ensures
        r@ == join_path(base@, rel@),
{
    let b = chars_of(base);
    let r = chars_of(rel);
    if r.len() > 0 && r[0] == '/' {
        string_of(&r)
    } else if b.len() == 0 || b[b.len() - 1] == '/' {
        string_of(&cat(&b, &r))
    } else {
        string_of(&cat3(&b, &lit("/"), &r))
    }
}

/// `~/rest` under the home directory when one is known, else the path as written.
pub open spec fn expand_tilde_spec(path: Seq<char>, home: Option<Seq<char>>) -> Seq<char> {
    match (strip_prefix(path, "~/"@), home) {
        (Some(rest), Some(h)) => join_path(h, rest),
        _ => path,
    }
}

/// Expands a leading `~/` with the home directory `home` (the `HOME` variable).
pub fn expand_tilde(path: &str, home: Option<&str>) -> (r: String)
    ensures
        r@ == expand_tilde_spec(path@, crate::resolvers::opt_str(home)),
{
    match (strip_prefix_exec(&chars_of(path), &lit("~/")), home) {
        (Some(rest), Some(h)) => join_path_exec(h, string_of(&rest).as_str()),
        _ => String::from_str(path),
    }
}

// ---------------------------------------------------------------------------
// Desktop entries and icons
// ---------------------------------------------------------------------------

/// `i` is the position of the last `c` in `s`.
pub open spec fn last_char_at(s: Seq<char>, c: char, i: int) -> bool {
    0 <= i < s.len() && s[i] == c && forall|j: int| i < j < s.len() ==> s[j] != c
}

/// The extension of a file name as `Path::extension` gives it: what follows the last
/// `.`, unless there is no `.`, the only one leads the name, or the name is `..`.
pub open spec fn file_extension(name: Seq<char>) -> Option<Seq<char>> {
    if name == ".."@ {
        None
    } else if exists|i: int| last_char_at(name, '.', i) {
        let i = choose|i: int| last_char_at(name, '.', i);
        if i == 0 { None } else { Some(name.skip(i + 1)) }
    } else {
        None
    }
}

/// The extension of the file name `name`.
pub fn file_extension_exec(name: &str) -> (r: Option<String>)
    ensures
        opt_view(r) == file_extension(name@),
{
    let n = chars_of(name);
    proof { reveal_strlit(".."); }
    if eq(&n, &lit("..")) {
        return None;
    }
    match crate::text::rfind_char(&n, '.') {
        Some(i) => {
            proof {
                assert(last_char_at(n@, '.', i as int));
                let k = choose|k: int| last_char_at(n@, '.', k);
                if k < i {
                    assert(n@[i as int] != '.');
                }
                if k > i {
                    assert(n@[k] != '.');
                }
            }
            if i == 0 {
                None
            } else {
                Some(string_of(&slice_copy(&n, i + 1, n.len())))
            }
        },
        None => {
            assert(!exists|i: int| last_char_at(n@, '.', i));
            None
        },
    }
}

/// The file name `name` has one of `extensions`, compared without regard to ASCII case.
pub open spec fn has_extension_in_spec(name: Seq<char>, extensions: Seq<&str>) -> bool {
    match file_extension(name) {
        Some(e) => exists|k: int| 0 <= k < extensions.len() && lower(e) == lower(#[trigger] extensions[k]@),
        None => false,
    }
}

/// Whether the file name `name` has one of `extensions` (ASCII case ignored): the
/// test by which desktop entries and icons are picked from an extracted AppImage.
pub fn has_extension_in(name: &str, extensions: &[&str]) -> (r: bool)
    ensures
        r == has_extension_in_spec(name@, extensions@),
{
    match file_extension_exec(name) {
        Some(e) => {
            let ec = chars_of_string(&e);
            let mut k: usize = 0;
            while k < extensions.len()
                invariant
                    k <= extensions.len(),
                    ec@ == e@,
                    file_extension(name@) == Some(e@),
                    forall|j: int| 0 <= j < k ==> lower(e@) != lower(#[trigger] extensions@[j]@),
                decreases extensions.len() - k,
            {
                let x = chars_of(extensions[k]);
                if eq_ignore_ascii_case(&ec, &x) {
                    assert(lower(e@) == lower(extensions@[k as int]@));
                    assert(file_extension(name@) == Some(e@));
                    return true;
                }
                k = k + 1;
            }
            false
        },
        None => false,
    }
}

/// The index of the first name that `pred` accepts.
pub open spec fn first_where(names: Seq<Seq<char>>, pred: spec_fn(Seq<char>) -> bool) -> Option<int> {
    if exists|i: int| 0 <= i < names.len() && pred(names[i]) {
        Some(
            choose|i: int|
                0 <= i < names.len() && pred(names[i]) && forall|j: int| 0 <= j < i ==> !pred(#[trigger] names[j]),
        )
    } else {
        None
    }
}

proof fn lemma_first_where_is(names: Seq<Seq<char>>, pred: spec_fn(Seq<char>) -> bool, i: int)
    requires
        0 <= i < names.len(),
        pred(names[i]),
        forall|j: int| 0 <= j < i ==> !pred(#[trigger] names[j]),
    ensures
        first_where(names, pred) == Some(i),
{
    let k = choose|k: int| 0 <= k < names.len() && pred(names[k]) && forall|j: int| 0 <= j < k ==> !pred(#[trigger] names[j]);
    assert(0 <= k < names.len() && pred(names[k]) && forall|j: int| 0 <= j < k ==> !pred(#[trigger] names[j]));
    if k < i {
        assert(!pred(names[k]));
    }
    if k > i {
        assert(!pred(names[i]));
    }
}

proof fn lemma_first_where_none(names: Seq<Seq<char>>, pred: spec_fn(Seq<char>) -> bool)
    requires
        forall|j: int| 0 <= j < names.len() ==> !pred(#[trigger] names[j]),
    ensures
        first_where(names, pred) is None,
{
}

/// The view of an optional position.
pub open spec fn opt_index(r: Option<usize>) -> Option<int> {
    match r {
        Some(i) => Some(i as int),
        None => None,
    }
}

/// The first of the file names (listed in the order of the walk through an extracted
/// AppImage) that has one of `extensions`, ASCII case ignored.
pub fn first_file_with_extension(names: &[String], extensions: &[&str]) -> (r: Option<usize>)
    ensures
        opt_index(r) == first_where(
            crate::config::strings_view(names@),
            |n: Seq<char>| has_extension_in_spec(n, extensions@),
        ),
{
    let ghost v = crate::config::strings_view(names@);
    let ghost pred = |n: Seq<char>| has_extension_in_spec(n, extensions@);
    let mut i: usize = 0;
    while i < names.len()
        invariant
            i <= names.len(),
            v == crate::config::strings_view(names@),
            pred == (|n: Seq<char>| has_extension_in_spec(n, extensions@)),
            forall|j: int| 0 <= j < i ==> !pred(#[trigger] v[j]),
        decreases names.len() - i,
    {
        if has_extension_in(names[i].as_str(), extensions) {
            proof {
                assert(pred(v[i as int]));
                lemma_first_where_is(v, pred, i as int);
            }
            return Some(i);
        }
        i = i + 1;
    }
    proof {
        lemma_first_where_none(v, pred);
    }
    None
}

fn first_named(names: &[String], target: &[char]) -> (r: Option<usize>)
    ensures
        opt_index(r) == first_where(crate::config::strings_view(names@), |n: Seq<char>| n == target@),
{
    let ghost v = crate::config::strings_view(names@);
    let ghost pred = |n: Seq<char>| n == target@;
    let mut i: usize = 0;
    while i < names.len()
        invariant
            i <= names.len(),
            v == crate::config::strings_view(names@),
            pred == (|n: Seq<char>| n == target@),
            forall|j: int| 0 <= j < i ==> !pred(#[trigger] v[j]),
        decreases names.len() - i,
    {
        if eq(&chars_of(names[i].as_str()), target) {
            proof {
                assert(pred(v[i as int]));
                lemma_first_where_is(v, pred, i as int);
            }
            return Some(i);
        }
        i = i + 1;
    }
    proof {
        lemma_first_where_none(v, pred);
    }
    None
}

/// The extensions an icon file may have.
pub open spec fn icon_extensions() -> Seq<&'static str> {
    seq!["svg", "png", "xpm"]
}

/// An icon file whose stem is `stem`: a name with an icon extension that is the stem,
/// a `.` and that extension.
pub open spec fn icon_with_stem(n: Seq<char>, stem: Seq<char>) -> bool {
    has_extension_in_spec(n, icon_extensions()) && (file_extension(n) matches Some(e) && n == stem + "."@ + e)
}

fn first_icon_with_stem(names: &[String], stem: &[char]) -> (r: Option<usize>)
    ensures
        opt_index(r) == first_where(crate::config::strings_view(names@), |n: Seq<char>| icon_with_stem(n, stem@)),
{
    let exts: Vec<&str> = vec!["svg", "png", "xpm"];
    assert(exts@ == icon_extensions());
    let ghost v = crate::config::strings_view(names@);
    let ghost pred = |n: Seq<char>| icon_with_stem(n, stem@);
    let mut i: usize = 0;
    while i < names.len()
        invariant
            i <= names.len(),
            v == crate::config::strings_view(names@),
            exts@ == icon_extensions(),
            pred == (|n: Seq<char>| icon_with_stem(n, stem@)),
            forall|j: int| 0 <= j < i ==> !pred(#[trigger] v[j]),
        decreases names.len() - i,
    {
        let name = names[i].as_str();
        if has_extension_in(name, exts.as_slice()) {
            match file_extension_exec(name) {
                Some(e) => {
                    let whole = cat3(stem, &lit("."), &chars_of(e.as_str()));
                    if eq(&chars_of(name), &whole) {
                        proof {
                            assert(pred(v[i as int]));
                            lemma_first_where_is(v, pred, i as int);
                        }
                        return Some(i);
                    }
                    assert(!pred(v[i as int]));
                },
                None => {},
            }
        }
        i = i + 1;
    }
    proof {
        lemma_first_where_none(v, pred);
    }
    None
}

/// Which file of an extracted AppImage is its icon.
#[derive(Clone, Copy, Debug, PartialEq, Eq, Structural)]
pub enum IconChoice {
    /// The path the desktop entry names (absolute, or with a `/`), which is a file.
    Direct,
    /// The listed file at this position.
    Listed(usize),
    /// No icon file.
    NoIcon,
}

/// The file the desktop entry's icon name leads to: the file of that exact name when it
/// has an extension, else that name with `.svg`, `.png` or `.xpm` (in that order of
/// preference), else an icon file with that stem.
pub open spec fn icon_by_name_spec(icon_name: Seq<char>, names: Seq<Seq<char>>) -> Option<int> {
    let exact = if file_extension(icon_name) is Some { first_where(names, |n: Seq<char>| n == icon_name) } else { None };
    let svg = first_where(names, |n: Seq<char>| n == icon_name + ".svg"@);
    let png = first_where(names, |n: Seq<char>| n == icon_name + ".png"@);
    let xpm = first_where(names, |n: Seq<char>| n == icon_name + ".xpm"@);
    let stem = first_where(names, |n: Seq<char>| icon_with_stem(n, icon_name));
    if exact is Some {
        exact
    } else if svg is Some {
        svg
    } else if png is Some {
        png
    } else if xpm is Some {
        xpm
    } else {
        stem
    }
}

/// The icon of an extracted AppImage, whose files' names are `names` in the order of
/// the walk. When the desktop entry names an icon (`entry_names_icon`): the named path
/// itself when it is a file (`direct_is_file`), else the file its name (`icon_name`,
/// the path's last component) leads to. Otherwise, or when that finds nothing, the
/// first file with an icon extension.
pub open spec fn icon_choice_spec(
    entry_names_icon: bool,
    direct_is_file: bool,
    icon_name: Option<Seq<char>>,
    names: Seq<Seq<char>>,
) -> IconChoice {
    let by_entry = if !entry_names_icon {
        None
    } else if direct_is_file {
        Some(IconChoice::Direct)
    } else {
        match icon_name {
            Some(n) => match icon_by_name_spec(n, names) {
                Some(i) => Some(IconChoice::Listed(i as usize)),
                None => None,
            },
            None => None,
        }
    };
    match by_entry {
        Some(c) => c,
        None => match first_where(names, |n: Seq<char>| has_extension_in_spec(n, icon_extensions())) {
            Some(i) => IconChoice::Listed(i as usize),
            None => IconChoice::NoIcon,
        },
    }
}

fn listed(r: Option<usize>) -> (c: Option<IconChoice>)
    ensures
        c == match r {
            Some(i) => Some(IconChoice::Listed(i)),
            None => None::<IconChoice>,
        },
{
    match r {
        Some(i) => Some(IconChoice::Listed(i)),
        None => None,
    }
}

/// Chooses the icon of an extracted AppImage; see `icon_choice_spec`.
pub fn choose_icon(entry_names_icon: bool, direct_is_file: bool, icon_name: Option<&str>, names: &[String]) -> (r: IconChoice)
    ensures
        r == icon_choice_spec(
            entry_names_icon,
            direct_is_file,
            match icon_name {
                Some(n) => Some(n@),
                None => None,
            },
            crate::config::strings_view(names@),
        ),
{
    let ghost v = crate::config::strings_view(names@);
    let mut by_entry: Option<IconChoice> = None;
    if entry_names_icon {
        if direct_is_file {
            by_entry = Some(IconChoice::Direct);
        } else {
            match icon_name {
                Some(n) => {
                    let nc = chars_of(n);
                    proof {
                        reveal_strlit(".svg");
                        reveal_strlit(".png");
                        reveal_strlit(".xpm");
                    }
                    let exact = match file_extension_exec(n) {
                        Some(_) => first_named(names, &nc),
                        None => None,
                    };
                    let found = if exact.is_some() {
                        exact
                    } else {
                        let svg = first_named(names, &cat(&nc, &lit(".svg")));
                        if svg.is_some() {
                            svg
                        } else {
                            let png = first_named(names, &cat(&nc, &lit(".png")));
                            if png.is_some() {
                                png
                            } else {
                                let xpm = first_named(names, &cat(&nc, &lit(".xpm")));
                                if xpm.is_some() {
                                    xpm
                                } else {
                                    first_icon_with_stem(names, &nc)
                                }
                            }
                        }
                    };
                    assert(opt_index(found) == icon_by_name_spec(n@, v));
                    by_entry = listed(found);
                },
                None => {},
            }
        }
    }
    match by_entry {
        Some(c) => c,
        None => {
            let exts: Vec<&str> = vec!["svg", "png", "xpm"];
            assert(exts@ == icon_extensions());
            match first_file_with_extension(names, exts.as_slice()) {
                Some(i) => IconChoice::Listed(i),
                None => IconChoice::NoIcon,
            }
        },
    }
}

/// The `Exec` value of the installed desktop entry: the AppImage's path, followed by
/// the arguments of the shipped entry (everything from its first space).
pub open spec fn desktop_exec_spec(existing: Seq<char>, exec_path: Seq<char>) -> Seq<char> {
    match find_char(existing, ' ') {
        Some(i) => exec_path + existing.skip(i),
        None => exec_path,
    }
}

/// The `Exec` value for the AppImage at `exec_path`, keeping the arguments of the
/// shipped entry's `Exec` value `existing`.
pub fn desktop_exec_value(existing: &str, exec_path: &str) -> (r: String)
    ensures
        r@ == desktop_exec_spec(existing@, exec_path@),
{
    let e = chars_of(existing);
    match find_char_exec(&e, ' ') {
        Some(i) => string_of(&cat(&chars_of(exec_path), &slice_copy(&e, i, e.len()))),
        None => String::from_str(exec_path),
    }
}

/// The file name of the installed desktop entry.
pub fn desktop_entry_file_name(sanitized_name: &str) -> (r: String)
    ensures
        r@ == sanitized_name@ + ".desktop"@,
{
    string_of(&cat(&chars_of(sanitized_name), &lit(".desktop")))
}

/// The file name of the installed icon, keeping the icon's extension.
pub fn icon_file_name(sanitized_name: &str, extension: &str) -> (r: String)
    ensures
        r@ == sanitized_name@ + "."@ + extension@,
{
    string_of(&cat3(&chars_of(sanitized_name), &lit("."), &chars_of(extension)))
}

/// The error when `--appimage-extract` ran but produced nothing; `stderr` as captured.
pub fn direct_extract_failure_message(stderr: &str) -> (r: String)
    ensures
        r@ == "AppImage extraction failed via --appimage-extract"@ + stderr_detail_spec(trim(stderr@)),
{
    let t = string_of(&trim_exec(&chars_of(stderr)));
    let d = format_stderr_detail(t.as_str());
    string_of(&cat(&lit("AppImage extraction failed via --appimage-extract"), &chars_of_string(&d)))
}

/// The error when `appimage-run -x` failed; `stderr` as captured. A file that is not
/// SquashFS-based gets the NixOS explanation.
pub fn appimage_run_failure_message(stderr: &str) -> (r: String)
    ensures
        r@ == match nixos_message_spec(trim(stderr@)) {
            Some(m) => m,
            None => "appimage-run fallback failed"@ + stderr_detail_spec(trim(stderr@)),
        },
{
    let t = string_of(&trim_exec(&chars_of(stderr)));
    match nixos_unsupported_appimage_message(t.as_str()) {
        Some(m) => m,
        None => {
            let d = format_stderr_detail(t.as_str());
            string_of(&cat(&lit("appimage-run fallback failed"), &chars_of_string(&d)))
        },
    }
}

} // verus!
