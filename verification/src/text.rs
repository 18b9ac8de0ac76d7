//! Character-level text utilities with specifications over `Seq<char>`.
//!
//! Strings are handled as vectors of characters inside the library so that
//! every search, split and rewrite can be stated and proved over sequences.
use vstd::prelude::*;

verus! {

broadcast use vstd::string::group_string_axioms;

// ---------------------------------------------------------------------------
// Specifications
// ---------------------------------------------------------------------------

/// `p` is a prefix of `s`.
pub open spec fn is_prefix(p: Seq<char>, s: Seq<char>) -> bool {
    p.len() <= s.len() && s.subrange(0, p.len() as int) == p
}

/// `p` is a suffix of `s`.
pub open spec fn is_suffix(p: Seq<char>, s: Seq<char>) -> bool {
    p.len() <= s.len() && s.subrange(s.len() - p.len(), s.len() as int) == p
}

/// `n` occurs in `s` starting at index `i`.
pub open spec fn occurs_at(s: Seq<char>, n: Seq<char>, i: int) -> bool {
    0 <= i && i + n.len() <= s.len() && s.subrange(i, i + n.len()) == n
}

/// `n` occurs somewhere in `s`.
pub open spec fn contains_seq(s: Seq<char>, n: Seq<char>) -> bool {
    exists|i: int| occurs_at(s, n, i)
}

/// `i` is the first index at or after `start` where `n` occurs in `s`.
pub open spec fn first_occurrence_from(s: Seq<char>, n: Seq<char>, start: int, i: int) -> bool {
    start <= i && occurs_at(s, n, i) && forall|j: int| start <= j < i ==> !occurs_at(s, n, j)
}

/// `i` is the last index where `n` occurs in `s`.
pub open spec fn last_occurrence(s: Seq<char>, n: Seq<char>, i: int) -> bool {
    occurs_at(s, n, i) && forall|j: int| i < j ==> !occurs_at(s, n, j)
}

/// ASCII lowercase of one character; other characters are unchanged.
pub open spec fn lower_char(c: char) -> char {
    if 'A' <= c && c <= 'Z' {
        ((c as u32) + 32) as char
    } else {
        c
    }
}

/// ASCII lowercase of a sequence.
pub open spec fn lower(s: Seq<char>) -> Seq<char> {
    s.map_values(|c: char| lower_char(c))
}

/// ASCII letters and digits.
pub open spec fn is_ascii_alnum(c: char) -> bool {
    ('a' <= c && c <= 'z') || ('A' <= c && c <= 'Z') || ('0' <= c && c <= '9')
}

/// Characters with the Unicode `White_Space` property.
pub open spec fn is_ws(c: char) -> bool {
    ('\u{9}' <= c && c <= '\u{d}') || c == ' ' || c == '\u{85}' || c == '\u{a0}' || c
        == '\u{1680}' || ('\u{2000}' <= c && c <= '\u{200a}') || c == '\u{2028}' || c
        == '\u{2029}' || c == '\u{202f}' || c == '\u{205f}' || c == '\u{3000}'
}

/// `s` without its leading white space.
pub open spec fn trim_start(s: Seq<char>) -> Seq<char>
    decreases s.len(),
{
    if s.len() > 0 && is_ws(s[0]) {
        trim_start(s.drop_first())
    } else {
        s
    }
}

/// `s` without its trailing white space.
pub open spec fn trim_end(s: Seq<char>) -> Seq<char>
    decreases s.len(),
{
    if s.len() > 0 && is_ws(s.last()) {
        trim_end(s.drop_last())
    } else {
        s
    }
}

/// `s` without leading and trailing white space.
pub open spec fn trim(s: Seq<char>) -> Seq<char> {
    trim_end(trim_start(s))
}

/// `s` without every leading occurrence of `c`.
pub open spec fn trim_start_char(s: Seq<char>, c: char) -> Seq<char>
    decreases s.len(),
{
    if s.len() > 0 && s[0] == c {
        trim_start_char(s.drop_first(), c)
    } else {
        s
    }
}

/// `s` without every trailing occurrence of `c`.
pub open spec fn trim_end_char(s: Seq<char>, c: char) -> Seq<char>
    decreases s.len(),
{
    if s.len() > 0 && s.last() == c {
        trim_end_char(s.drop_last(), c)
    } else {
        s
    }
}

/// `s` without every leading and trailing occurrence of `c`.
pub open spec fn trim_char(s: Seq<char>, c: char) -> Seq<char> {
    trim_end_char(trim_start_char(s, c), c)
}

/// Left-to-right replacement of the non-overlapping occurrences of `from` by `to`.
pub open spec fn replace_all(s: Seq<char>, from: Seq<char>, to: Seq<char>) -> Seq<char>
    recommends
        from.len() > 0,
    decreases s.len(),
{
    if s.len() == 0 || from.len() == 0 {
        s
    } else if is_prefix(from, s) {
        to + replace_all(s.subrange(from.len() as int, s.len() as int), from, to)
    } else {
        seq![s[0]] + replace_all(s.drop_first(), from, to)
    }
}

/// The decimal digit character for `d < 10`.
pub open spec fn digit_char(d: nat) -> char {
    ((d + 48) as u32) as char
}

/// Decimal representation of `n`, without leading zeros.
pub open spec fn decimal(n: nat) -> Seq<char>
    decreases n,
{
    if n < 10 {
        seq![digit_char(n)]
    } else {
        decimal(n / 10).push(digit_char(n % 10))
    }
}

/// ASCII decimal digit.
pub open spec fn is_digit(c: char) -> bool {
    '0' <= c && c <= '9'
}

/// Every character of `s` is a decimal digit.
pub open spec fn all_digits(s: Seq<char>) -> bool {
    forall|i: int| 0 <= i < s.len() ==> is_digit(#[trigger] s[i])
}

/// The number that the digit string `s` denotes.
pub open spec fn digits_value(s: Seq<char>) -> nat
    decreases s.len(),
{
    if s.len() == 0 {
        0
    } else {
        digits_value(s.drop_last()) * 10 + ((s.last() as u32) - 48) as nat
    }
}

/// The digits that Rust's integer parsing reads: an optional leading `+` is skipped.
pub open spec fn unsigned_digits(s: Seq<char>) -> Seq<char> {
    if s.len() > 0 && s[0] == '+' {
        s.drop_first()
    } else {
        s
    }
}

/// What `str::parse::<u64>` yields, as a number when it succeeds.
pub open spec fn parse_unsigned(s: Seq<char>, max: nat) -> Option<nat> {
    let d = unsigned_digits(s);
    if d.len() > 0 && all_digits(d) && digits_value(d) <= max {
        Some(digits_value(d))
    } else {
        None
    }
}

// ---------------------------------------------------------------------------
// Conversions
// ---------------------------------------------------------------------------

/// Appends `c` to `s` (`String::push`).
#[verifier::external_body]
fn push_char(s: &mut String, c: char)
    ensures
        final(s)@ == old(s)@.push(c),
{
    s.push(c)
}

/// The characters of `s`, in order.
pub fn chars_of(s: &str) -> (v: Vec<char>)
    ensures
        v@ == s@,
{
    let mut v: Vec<char> = Vec::new();
    for c in it: s.chars()
        invariant
            v@ == it.seq().take(it.index()),
    {
        v.push(c);
    }
    v
}

/// The string made of the characters `v`.
pub fn string_of(v: &[char]) -> (s: String)
    ensures
        s@ == v@,
{
    let mut s = String::new();
    let mut i: usize = 0;
    while i < v.len()
        invariant
            i <= v.len(),
            s@ == v@.take(i as int),
        decreases v.len() - i,
    {
        push_char(&mut s, v[i]);
        i = i + 1;
        assert(v@.take(i as int) == v@.take(i - 1).push(v@[i - 1]));
    }
    assert(v@.take(v.len() as int) == v@);
    s
}

/// Copy of `s[from..to]`.
pub fn slice_copy(s: &[char], from: usize, to: usize) -> (v: Vec<char>)
    requires
        from <= to <= s.len(),
    ensures
        v@ == s@.subrange(from as int, to as int),
{
    let mut v: Vec<char> = Vec::new();
    let mut i = from;
    while i < to
        invariant
            from <= i <= to <= s.len(),
            v@ == s@.subrange(from as int, i as int),
        decreases to - i,
    {
        v.push(s[i]);
        i = i + 1;
        assert(s@.subrange(from as int, i as int) == s@.subrange(from as int, i - 1).push(
            s@[i - 1],
        ));
    }
    v
}

/// Appends every character of `t` to `v`.
pub fn push_all(v: &mut Vec<char>, t: &[char])
    ensures
        final(v)@ == old(v)@ + t@,
{
    let ghost start = v@;
    let mut i: usize = 0;
    while i < t.len()
        invariant
            i <= t.len(),
            v@ == start + t@.take(i as int),
        decreases t.len() - i,
    {
        v.push(t[i]);
        i = i + 1;
        assert(t@.take(i as int) == t@.take(i - 1).push(t@[i - 1]));
    }
    assert(t@.take(t.len() as int) == t@);
}

/// `a` followed by `b`.
pub fn cat(a: &[char], b: &[char]) -> (v: Vec<char>)
    ensures
        v@ == a@ + b@,
{
    let mut v: Vec<char> = Vec::new();
    push_all(&mut v, a);
    push_all(&mut v, b);
    v
}

/// Characters of a string literal or slice (shorthand for [`chars_of`]).
pub fn lit(s: &str) -> (v: Vec<char>)
    ensures
        v@ == s@,
{
    chars_of(s)
}

// ---------------------------------------------------------------------------
// Comparisons and searches
// ---------------------------------------------------------------------------

/// Character-wise equality.
pub fn eq(a: &[char], b: &[char]) -> (r: bool)
    ensures
        r == (a@ == b@),
{
    if a.len() != b.len() {
        return false;
    }
    let mut i: usize = 0;
    while i < a.len()
        invariant
            i <= a.len() == b.len(),
            forall|j: int| 0 <= j < i ==> a@[j] == b@[j],
        decreases a.len() - i,
    {
        if a[i] != b[i] {
            return false;
        }
        i = i + 1;
    }
    assert(a@ =~= b@);
    true
}

/// `n` occurs in `s` at index `i`.
pub fn matches_at(s: &[char], n: &[char], i: usize) -> (r: bool)
    ensures
        r == occurs_at(s@, n@, i as int),
{
    if i > s.len() || n.len() > s.len() - i {
        return false;
    }
    let mut k: usize = 0;
    while k < n.len()
        invariant
            i + n.len() <= s.len(),
            k <= n.len(),
            forall|j: int| 0 <= j < k ==> s@[i + j] == n@[j],
        decreases n.len() - k,
    {
        if s[i + k] != n[k] {
            assert(s@.subrange(i as int, i + n.len())[k as int] != n@[k as int]);
            return false;
        }
        k = k + 1;
    }
    assert(s@.subrange(i as int, i + n.len()) =~= n@);
    true
}

/// `p` is a prefix of `s`.
pub fn starts_with(s: &[char], p: &[char]) -> (r: bool)
    ensures
        r == is_prefix(p@, s@),
{
    matches_at(s, p, 0)
}

/// `p` is a suffix of `s`.
pub fn ends_with(s: &[char], p: &[char]) -> (r: bool)
    ensures
        r == is_suffix(p@, s@),
{
    if p.len() > s.len() {
        return false;
    }
    matches_at(s, p, s.len() - p.len())
}

/// First index at or after `start` where `n` occurs in `s`.
pub fn find_from(s: &[char], n: &[char], start: usize) -> (r: Option<usize>)
    ensures
        r matches Some(i) ==> first_occurrence_from(s@, n@, start as int, i as int),
        r is None ==> forall|j: int| start <= j ==> !occurs_at(s@, n@, j),
{
    if n.len() > s.len() {
        return None;
    }
    let last = s.len() - n.len();
    if start > last {
        return None;
    }
    let mut i = start;
    loop
        invariant
            start <= i <= last,
            last + n.len() == s.len(),
            forall|j: int| start <= j < i ==> !occurs_at(s@, n@, j),
        decreases last - i,
    {
        if matches_at(s, n, i) {
            return Some(i);
        }
        if i == last {
            return None;
        }
        i = i + 1;
    }
}

/// First index of `n` in `s`.
pub fn find(s: &[char], n: &[char]) -> (r: Option<usize>)
    ensures
        r matches Some(i) ==> first_occurrence_from(s@, n@, 0, i as int),
        r is None ==> !contains_seq(s@, n@),
{
    find_from(s, n, 0)
}

/// `n` occurs in `s`.
pub fn contains(s: &[char], n: &[char]) -> (r: bool)
    ensures
        r == contains_seq(s@, n@),
{
    match find(s, n) {
        Some(i) => {
            assert(occurs_at(s@, n@, i as int));
            true
        },
        None => false,
    }
}

/// Last index of `n` in `s`.
pub fn rfind(s: &[char], n: &[char]) -> (r: Option<usize>)
    ensures
        r matches Some(i) ==> last_occurrence(s@, n@, i as int),
        r is None ==> !contains_seq(s@, n@),
{
    if n.len() > s.len() {
        return None;
    }
    let mut i = s.len() - n.len();
    loop
        invariant
            i + n.len() <= s.len(),
            forall|j: int| i < j ==> !occurs_at(s@, n@, j),
        decreases i,
    {
        if matches_at(s, n, i) {
            return Some(i);
        }
        if i == 0 {
            return None;
        }
        i = i - 1;
    }
}

/// First index at or after `start` holding `c`.
pub fn find_char_from(s: &[char], c: char, start: usize) -> (r: Option<usize>)
    ensures
        r matches Some(i) ==> start <= i < s.len() && s@[i as int] == c && forall|j: int|
            start <= j < i ==> s@[j] != c,
        r is None ==> forall|j: int| start <= j < s.len() ==> s@[j] != c,
{
    let mut i = start;
    while i < s.len()
        invariant
            start <= i,
            forall|j: int| start <= j < i ==> s@[j] != c,
        decreases s.len() - i,
    {
        if s[i] == c {
            return Some(i);
        }
        i = i + 1;
    }
    None
}

/// Last index holding `c`.
pub fn rfind_char(s: &[char], c: char) -> (r: Option<usize>)
    ensures
        r matches Some(i) ==> i < s.len() && s@[i as int] == c && forall|j: int|
            i < j < s.len() ==> s@[j] != c,
        r is None ==> forall|j: int| 0 <= j < s.len() ==> s@[j] != c,
{
    let mut i = s.len();
    while i > 0
        invariant
            i <= s.len(),
            forall|j: int| i <= j < s.len() ==> s@[j] != c,
        decreases i,
    {
        i = i - 1;
        if s[i] == c {
            return Some(i);
        }
    }
    None
}

// ---------------------------------------------------------------------------
// Case, white space and trimming
// ---------------------------------------------------------------------------

/// ASCII lowercase of one character.
pub fn lower_char_exec(c: char) -> (r: char)
    ensures
        r == lower_char(c),
{
    if 'A' <= c && c <= 'Z' {
        let code = (c as u32) + 32;
        let r = char_from_ascii(code);
        r
    } else {
        c
    }
}

/// The character with code `code`, for ASCII codes.
fn char_from_ascii(code: u32) -> (c: char)
    requires
        code < 128,
    ensures
        c == code as char,
{
    let b = code as u8;
    b as char
}

/// ASCII lowercase of `s`.
pub fn to_lower(s: &[char]) -> (v: Vec<char>)
    ensures
        v@ == lower(s@),
{
    let mut v: Vec<char> = Vec::new();
    let mut i: usize = 0;
    while i < s.len()
        invariant
            i <= s.len(),
            v@ == lower(s@.take(i as int)),
        decreases s.len() - i,
    {
        v.push(lower_char_exec(s[i]));
        i = i + 1;
        assert(lower(s@.take(i as int)) =~= lower(s@.take(i - 1)).push(lower_char(s@[i - 1])));
    }
    assert(s@.take(s.len() as int) == s@);
    v
}

/// Case-insensitive (ASCII) equality.
pub fn eq_ignore_ascii_case(a: &[char], b: &[char]) -> (r: bool)
    ensures
        r == (lower(a@) == lower(b@)),
{
    let la = to_lower(a);
    let lb = to_lower(b);
    eq(&la, &lb)
}

/// White space in the sense of `char::is_whitespace`.
pub fn is_ws_exec(c: char) -> (r: bool)
    ensures
        r == is_ws(c),
{
    ('\u{9}' <= c && c <= '\u{d}') || c == ' ' || c == '\u{85}' || c == '\u{a0}' || c
        == '\u{1680}' || ('\u{2000}' <= c && c <= '\u{200a}') || c == '\u{2028}' || c
        == '\u{2029}' || c == '\u{202f}' || c == '\u{205f}' || c == '\u{3000}'
}

proof fn lemma_trim_start_skip(s: Seq<char>, i: int)
    requires
        0 <= i <= s.len(),
        forall|j: int| 0 <= j < i ==> is_ws(s[j]),
    ensures
        trim_start(s) == trim_start(s.subrange(i, s.len() as int)),
    decreases i,
{
    if i > 0 {
        assert(s.drop_first().subrange(i - 1, s.drop_first().len() as int) =~= s.subrange(
            i,
            s.len() as int,
        ));
        lemma_trim_start_skip(s.drop_first(), i - 1);
    } else {
        assert(s.subrange(0, s.len() as int) =~= s);
    }
}

proof fn lemma_trim_end_take(s: Seq<char>, k: int)
    requires
        0 <= k <= s.len(),
        forall|j: int| k <= j < s.len() ==> is_ws(s[j]),
    ensures
        trim_end(s) == trim_end(s.subrange(0, k)),
    decreases s.len() - k,
{
    if k < s.len() {
        assert(s.drop_last().subrange(0, k) =~= s.subrange(0, k));
        lemma_trim_end_take(s.drop_last(), k);
    } else {
        assert(s.subrange(0, k) =~= s);
    }
}

/// `s` without leading and trailing white space (`str::trim`).
pub fn trim_exec(s: &[char]) -> (v: Vec<char>)
    ensures
        v@ == trim(s@),
{
    let mut a: usize = 0;
    while a < s.len() && is_ws_exec(s[a])
        invariant
            a <= s.len(),
            forall|j: int| 0 <= j < a ==> is_ws(s@[j]),
        decreases s.len() - a,
    {
        a = a + 1;
    }
    let ghost t = s@.subrange(a as int, s.len() as int);
    proof {
        lemma_trim_start_skip(s@, a as int);
    }
    let mut b: usize = s.len();
    while b > a && is_ws_exec(s[b - 1])
        invariant
            a <= b <= s.len(),
            forall|j: int| b <= j < s.len() ==> is_ws(s@[j]),
        decreases b,
    {
        b = b - 1;
    }
    proof {
        assert(trim_start(s@) == t);
        assert forall|j: int| (b - a) <= j < t.len() implies is_ws(t[j]) by {
            assert(t[j] == s@[j + a]);
        }
        lemma_trim_end_take(t, b - a);
        assert(t.subrange(0, b - a) =~= s@.subrange(a as int, b as int));
        let u = s@.subrange(a as int, b as int);
        if u.len() > 0 {
            assert(u.last() == s@[b - 1]);
            assert(u[0] == s@[a as int]);
        } else {
        }
        assert(trim_end(u) == u);
        if a < s.len() {
            assert(!is_ws(s@[a as int]));
        }
    }
    slice_copy(s, a, b)
}

proof fn lemma_trim_start_char_skip(s: Seq<char>, c: char, i: int)
    requires
        0 <= i <= s.len(),
        forall|j: int| 0 <= j < i ==> s[j] == c,
    ensures
        trim_start_char(s, c) == trim_start_char(s.subrange(i, s.len() as int), c),
    decreases i,
{
    if i > 0 {
        assert(s.drop_first().subrange(i - 1, s.drop_first().len() as int) =~= s.subrange(
            i,
            s.len() as int,
        ));
        lemma_trim_start_char_skip(s.drop_first(), c, i - 1);
    } else {
        assert(s.subrange(0, s.len() as int) =~= s);
    }
}

proof fn lemma_trim_end_char_take(s: Seq<char>, c: char, k: int)
    requires
        0 <= k <= s.len(),
        forall|j: int| k <= j < s.len() ==> s[j] == c,
    ensures
        trim_end_char(s, c) == trim_end_char(s.subrange(0, k), c),
    decreases s.len() - k,
{
    if k < s.len() {
        assert(s.drop_last().subrange(0, k) =~= s.subrange(0, k));
        lemma_trim_end_char_take(s.drop_last(), c, k);
    } else {
        assert(s.subrange(0, k) =~= s);
    }
}

/// `s` without leading occurrences of `c` (`str::trim_start_matches`).
pub fn trim_start_char_exec(s: &[char], c: char) -> (v: Vec<char>)
    ensures
        v@ == trim_start_char(s@, c),
{
    let mut a: usize = 0;
    while a < s.len() && s[a] == c
        invariant
            a <= s.len(),
            forall|j: int| 0 <= j < a ==> s@[j] == c,
        decreases s.len() - a,
    {
        a = a + 1;
    }
    proof {
        lemma_trim_start_char_skip(s@, c, a as int);
    }
    slice_copy(s, a, s.len())
}

/// `s` without trailing occurrences of `c` (`str::trim_end_matches`).
pub fn trim_end_char_exec(s: &[char], c: char) -> (v: Vec<char>)
    ensures
        v@ == trim_end_char(s@, c),
{
    let mut b: usize = s.len();
    while b > 0 && s[b - 1] == c
        invariant
            b <= s.len(),
            forall|j: int| b <= j < s.len() ==> s@[j] == c,
        decreases b,
    {
        b = b - 1;
    }
    proof {
        lemma_trim_end_char_take(s@, c, b as int);
        let u = s@.subrange(0, b as int);
        if u.len() > 0 {
            assert(u.last() == s@[b - 1]);
        }
        assert(trim_end_char(u, c) == u);
    }
    slice_copy(s, 0, b)
}

/// `s` without leading and trailing occurrences of `c` (`str::trim_matches`).
pub fn trim_char_exec(s: &[char], c: char) -> (v: Vec<char>)
    ensures
        v@ == trim_char(s@, c),
{
    let t = trim_start_char_exec(s, c);
    trim_end_char_exec(&t, c)
}

// ---------------------------------------------------------------------------
// Replacement
// ---------------------------------------------------------------------------

/// Replaces every non-overlapping occurrence of `from`, left to right (`str::replace`).
pub fn replace_exec(s: &[char], from: &[char], to: &[char]) -> (v: Vec<char>)
    requires
        from.len() > 0,
    ensures
        v@ == replace_all(s@, from@, to@),
{
    let mut out: Vec<char> = Vec::new();
    let mut i: usize = 0;
    proof {
        assert(s@.subrange(0, s.len() as int) =~= s@);
        assert(out@ + replace_all(s@, from@, to@) =~= replace_all(s@, from@, to@));
    }
    while i < s.len()
        invariant
            i <= s.len(),
            from@.len() > 0,
            out@ + replace_all(s@.subrange(i as int, s.len() as int), from@, to@) == replace_all(
                s@,
                from@,
                to@,
            ),
        decreases s.len() - i,
    {
        let ghost rest = s@.subrange(i as int, s.len() as int);
        if matches_at(s, from, i) {
            proof {
                assert(rest.subrange(0, from@.len() as int) =~= s@.subrange(
                    i as int,
                    i + from@.len(),
                ));
                assert(rest.subrange(from@.len() as int, rest.len() as int) =~= s@.subrange(
                    i + from@.len(),
                    s.len() as int,
                ));
            }
            push_all(&mut out, from_to_slice(to));
            i = i + from.len();
            proof {
                assert(out@ + replace_all(s@.subrange(i as int, s.len() as int), from@, to@) =~= (
                out@.subrange(0, out@.len() - to@.len()) + (to@ + replace_all(
                    s@.subrange(i as int, s.len() as int),
                    from@,
                    to@,
                ))));
            }
        } else {
            proof {
                if is_prefix(from@, rest) {
                    assert(rest.subrange(0, from@.len() as int) =~= s@.subrange(
                        i as int,
                        i + from@.len(),
                    ));
                }
                assert(rest.drop_first() =~= s@.subrange(i + 1, s.len() as int));
            }
            out.push(s[i]);
            i = i + 1;
            proof {
                assert(out@ + replace_all(s@.subrange(i as int, s.len() as int), from@, to@) =~= (
                out@.drop_last() + (seq![s@[i - 1]] + replace_all(
                    s@.subrange(i as int, s.len() as int),
                    from@,
                    to@,
                ))));
            }
        }
    }
    proof {
        assert(s@.subrange(i as int, s.len() as int) =~= Seq::<char>::empty());
        assert(out@ + Seq::<char>::empty() =~= out@);
    }
    out
}

#[inline]
fn from_to_slice(t: &[char]) -> (r: &[char])
    ensures
        r@ == t@,
{
    t
}

// ---------------------------------------------------------------------------
// Decimal numbers
// ---------------------------------------------------------------------------

/// Decimal representation of `n` (`u64::to_string`).
pub fn decimal_exec(n: u64) -> (v: Vec<char>)
    ensures
        v@ == decimal(n as nat),
    decreases n,
{
    if n < 10 {
        let c = char_from_ascii((n as u32) + 48);
        let mut v: Vec<char> = Vec::new();
        v.push(c);
        v
    } else {
        let mut v = decimal_exec(n / 10);
        let d = n % 10;
        let c = char_from_ascii((d as u32) + 48);
        v.push(c);
        v
    }
}

/// Decimal representation of `n` as a `String`.
pub fn u64_to_string(n: u64) -> (s: String)
    ensures
        s@ == decimal(n as nat),
{
    let v = decimal_exec(n);
    string_of(&v)
}

/// Parses an unsigned decimal number no larger than `max` (`str::parse::<u64>` and friends).
pub fn parse_unsigned_exec(s: &[char], max: u64) -> (r: Option<u64>)
    ensures
        match parse_unsigned(s@, max as nat) {
            Some(n) => r == Some(n as u64),
            None => r is None,
        },
{
    let mut start: usize = 0;
    if s.len() > 0 && s[0] == '+' {
        start = 1;
    }
    let ghost d = unsigned_digits(s@);
    proof {
        assert(d =~= s@.subrange(start as int, s.len() as int));
    }
    if start >= s.len() {
        return None;
    }
    let mut value: u64 = 0;
    let mut i = start;
    while i < s.len()
        invariant
            start <= i <= s.len(),
            d == s@.subrange(start as int, s.len() as int),
            d == unsigned_digits(s@),
            all_digits(s@.subrange(start as int, i as int)),
            value as nat == digits_value(s@.subrange(start as int, i as int)),
            value <= max,
        decreases s.len() - i,
    {
        let c = s[i];
        if c < '0' || c > '9' {
            proof {
                assert(d[i - start] == c);
                assert(!is_digit(d[i - start]));
                assert(!all_digits(d));
                assert(unsigned_digits(s@) == d);
                assert(!all_digits(unsigned_digits(s@)));
            }
            return None;
        }
        let digit = (c as u64) - 48;
        let ghost pre = s@.subrange(start as int, i as int);
        let ghost post = s@.subrange(start as int, i + 1);
        proof {
            assert(post.drop_last() =~= pre);
            assert(post.last() == c);
        }
        if digit > max || value > (max - digit) / 10 {
            proof {
                assert(value * 10 + digit > max) by (nonlinear_arith)
                    requires
                        digit > max || value > (max - digit) / 10,
                        digit <= 9,
                ;
                assert(digits_value(post) == value * 10 + digit);
                if all_digits(d) {
                    lemma_digits_value_prefix_bound(d, (i - start + 1) as int);
                    assert(d.subrange(0, (i - start + 1) as int) =~= post);
                    assert(digits_value(d) > max);
                }
                assert(parse_unsigned(s@, max as nat) is None);
            }
            return None;
        }
        value = value * 10 + digit;
        i = i + 1;
        proof {
            assert forall|j: int| 0 <= j < post.len() implies is_digit(#[trigger] post[j]) by {
                if j < pre.len() {
                    assert(post[j] == pre[j]);
                }
            }
        }
    }
    proof {
        assert(s@.subrange(start as int, s.len() as int) == d);
    }
    Some(value)
}

proof fn lemma_digits_value_prefix_bound(d: Seq<char>, k: int)
    requires
        0 <= k <= d.len(),
        all_digits(d),
    ensures
        digits_value(d) >= digits_value(d.subrange(0, k)),
    decreases d.len(),
{
    if k < d.len() {
        assert(d.drop_last().subrange(0, k) =~= d.subrange(0, k));
        assert(all_digits(d.drop_last())) by {
            assert forall|i: int| 0 <= i < d.drop_last().len() implies is_digit(
                #[trigger] d.drop_last()[i],
            ) by {
                assert(d.drop_last()[i] == d[i]);
            }
        }
        lemma_digits_value_prefix_bound(d.drop_last(), k);
        assert(digits_value(d) >= digits_value(d.drop_last())) by (nonlinear_arith)
            requires
                digits_value(d) == digits_value(d.drop_last()) * 10 + ((d.last() as u32)
                    - 48) as nat,
        ;
    } else {
        assert(d.subrange(0, k) =~= d);
    }
}

// ---------------------------------------------------------------------------
// Functional views of searches, splits and lines
// ---------------------------------------------------------------------------

/// First index of `n` in `s`, if any.
pub open spec fn find_seq(s: Seq<char>, n: Seq<char>) -> Option<int> {
    if exists|i: int| first_occurrence_from(s, n, 0, i) {
        Some(choose|i: int| first_occurrence_from(s, n, 0, i))
    } else {
        None
    }
}

/// Last index of `n` in `s`, if any.
pub open spec fn rfind_seq(s: Seq<char>, n: Seq<char>) -> Option<int> {
    if exists|i: int| last_occurrence(s, n, i) {
        Some(choose|i: int| last_occurrence(s, n, i))
    } else {
        None
    }
}

/// `c` sits at `i`, and nowhere before it.
pub open spec fn first_char_at(s: Seq<char>, c: char, i: int) -> bool {
    0 <= i < s.len() && s[i] == c && forall|j: int| 0 <= j < i ==> s[j] != c
}

/// First index of `c` in `s`, if any.
pub open spec fn find_char(s: Seq<char>, c: char) -> Option<int> {
    if exists|i: int| first_char_at(s, c, i) {
        Some(choose|i: int| first_char_at(s, c, i))
    } else {
        None
    }
}

/// `s` split around the first occurrence of `sep` (`str::split_once`).
pub open spec fn split_once(s: Seq<char>, sep: Seq<char>) -> Option<(Seq<char>, Seq<char>)> {
    match find_seq(s, sep) {
        Some(i) => Some((s.take(i), s.skip(i + sep.len()))),
        None => None,
    }
}

/// `s` split around the last occurrence of `sep` (`str::rsplit_once`).
pub open spec fn rsplit_once(s: Seq<char>, sep: Seq<char>) -> Option<(Seq<char>, Seq<char>)> {
    match rfind_seq(s, sep) {
        Some(i) => Some((s.take(i), s.skip(i + sep.len()))),
        None => None,
    }
}

/// `s` without the prefix `p`, if it has it (`str::strip_prefix`).
pub open spec fn strip_prefix(s: Seq<char>, p: Seq<char>) -> Option<Seq<char>> {
    if is_prefix(p, s) {
        Some(s.skip(p.len() as int))
    } else {
        None
    }
}

/// The part of `s` before the first `c`, or all of `s` (`split(c).next()`).
pub open spec fn before_char(s: Seq<char>, c: char) -> Seq<char> {
    match find_char(s, c) {
        Some(i) => s.take(i),
        None => s,
    }
}

/// A line without the `\r` of a `\r\n` ending.
pub open spec fn strip_cr(t: Seq<char>) -> Seq<char> {
    if t.len() > 0 && t.last() == '\r' {
        t.drop_last()
    } else {
        t
    }
}

/// The lines of `s` as `str::lines` yields them.
pub open spec fn lines(s: Seq<char>) -> Seq<Seq<char>>
    decreases s.len(),
{
    if s.len() == 0 {
        Seq::empty()
    } else if exists|i: int| first_char_at(s, '\n', i) {
        let i = choose|i: int| first_char_at(s, '\n', i);
        seq![strip_cr(s.take(i))] + lines(s.skip(i + 1))
    } else {
        seq![s]
    }
}

pub proof fn lemma_first_occurrence_unique(s: Seq<char>, n: Seq<char>, start: int, i: int, j: int)
    requires
        first_occurrence_from(s, n, start, i),
        first_occurrence_from(s, n, start, j),
    ensures
        i == j,
{
}

proof fn lemma_last_occurrence_unique(s: Seq<char>, n: Seq<char>, i: int, j: int)
    requires
        last_occurrence(s, n, i),
        last_occurrence(s, n, j),
    ensures
        i == j,
{
}

/// First index of `n` in `s`, with its functional view.
pub fn find_exec(s: &[char], n: &[char]) -> (r: Option<usize>)
    ensures
        r matches Some(i) ==> first_occurrence_from(s@, n@, 0, i as int),
        match find_seq(s@, n@) {
            Some(i) => r == Some(i as usize),
            None => r is None,
        },
{
    let r = find_from(s, n, 0);
    match r {
        Some(i) => {
            proof {
                let j = choose|j: int| first_occurrence_from(s@, n@, 0, j);
                lemma_first_occurrence_unique(s@, n@, 0, i as int, j);
            }
        },
        None => {
            assert(!exists|i: int| first_occurrence_from(s@, n@, 0, i));
        },
    }
    r
}

/// Last index of `n` in `s`, with its functional view.
pub fn rfind_exec(s: &[char], n: &[char]) -> (r: Option<usize>)
    ensures
        r matches Some(i) ==> last_occurrence(s@, n@, i as int),
        match rfind_seq(s@, n@) {
            Some(i) => r == Some(i as usize),
            None => r is None,
        },
{
    let r = rfind(s, n);
    match r {
        Some(i) => {
            proof {
                let j = choose|j: int| last_occurrence(s@, n@, j);
                lemma_last_occurrence_unique(s@, n@, i as int, j);
            }
        },
        None => {
            assert(!exists|i: int| last_occurrence(s@, n@, i));
        },
    }
    r
}

/// First index of `c` in `s`, with its functional view.
pub fn find_char_exec(s: &[char], c: char) -> (r: Option<usize>)
    ensures
        r matches Some(i) ==> first_char_at(s@, c, i as int),
        match find_char(s@, c) {
            Some(i) => r == Some(i as usize),
            None => r is None,
        },
{
    let r = find_char_from(s, c, 0);
    match r {
        Some(i) => {
            proof {
                assert(first_char_at(s@, c, i as int));
                let j = choose|j: int| first_char_at(s@, c, j);
                assert(i == j);
            }
        },
        None => {
            assert(!exists|i: int| first_char_at(s@, c, i));
        },
    }
    r
}

/// `s` split around the first `sep`.
pub fn split_once_exec(s: &[char], sep: &[char]) -> (r: Option<(Vec<char>, Vec<char>)>)
    ensures
        match split_once(s@, sep@) {
            Some((a, b)) => r matches Some((x, y)) && x@ == a && y@ == b,
            None => r is None,
        },
{
    match find_exec(s, sep) {
        Some(i) => {
            proof {
                assert(occurs_at(s@, sep@, i as int));
                assert(i + sep@.len() <= s@.len());
            }
            let a = slice_copy(s, 0, i);
            let seplen = sep.len();
            assert(i + seplen <= s.len());
            let b = slice_copy(s, i + seplen, s.len());
            Some((a, b))
        },
        None => None,
    }
}

/// `s` split around the last `sep`.
pub fn rsplit_once_exec(s: &[char], sep: &[char]) -> (r: Option<(Vec<char>, Vec<char>)>)
    ensures
        match rsplit_once(s@, sep@) {
            Some((a, b)) => r matches Some((x, y)) && x@ == a && y@ == b,
            None => r is None,
        },
{
    match rfind_exec(s, sep) {
        Some(i) => {
            proof {
                assert(occurs_at(s@, sep@, i as int));
                assert(i + sep@.len() <= s@.len());
            }
            let a = slice_copy(s, 0, i);
            let seplen = sep.len();
            assert(i + seplen <= s.len());
            let b = slice_copy(s, i + seplen, s.len());
            Some((a, b))
        },
        None => None,
    }
}

/// `s` without the prefix `p`.
pub fn strip_prefix_exec(s: &[char], p: &[char]) -> (r: Option<Vec<char>>)
    ensures
        match strip_prefix(s@, p@) {
            Some(t) => r matches Some(x) && x@ == t,
            None => r is None,
        },
{
    if starts_with(s, p) {
        Some(slice_copy(s, p.len(), s.len()))
    } else {
        None
    }
}

/// The part of `s` before the first `c`.
pub fn before_char_exec(s: &[char], c: char) -> (r: Vec<char>)
    ensures
        r@ == before_char(s@, c),
{
    match find_char_exec(s, c) {
        Some(i) => slice_copy(s, 0, i),
        None => slice_copy(s, 0, s.len()),
    }
}

/// The character sequences held by a vector of character vectors.
pub open spec fn views(v: Seq<Vec<char>>) -> Seq<Seq<char>> {
    Seq::new(v.len(), |i: int| v[i]@)
}

/// The lines of `s` (`str::lines`).
pub fn lines_exec(s: &[char]) -> (r: Vec<Vec<char>>)
    ensures
        views(r@) == lines(s@),
{
    let mut out: Vec<Vec<char>> = Vec::new();
    let mut p: usize = 0;
    proof {
        assert(s@.skip(0) =~= s@);
        assert(views(out@) + lines(s@) =~= lines(s@));
    }
    while p < s.len()
        invariant
            p <= s.len(),
            views(out@) + lines(s@.skip(p as int)) == lines(s@),
        decreases s.len() - p,
    {
        let ghost rest = s@.skip(p as int);
        let ghost before = views(out@);
        match find_char_from(s, '\n', p) {
            Some(i) => {
                let mut line = slice_copy(s, p, i);
                if line.len() > 0 && line[line.len() - 1] == '\r' {
                    line.pop();
                }
                proof {
                    let k = i - p;
                    assert(first_char_at(rest, '\n', k as int)) by {
                        assert forall|j: int| 0 <= j < k implies rest[j] != '\n' by {
                            assert(rest[j] == s@[p + j]);
                        }
                    }
                    let kk = choose|j: int| first_char_at(rest, '\n', j);
                    assert(kk == k);
                    assert(rest.take(k as int) =~= s@.subrange(p as int, i as int));
                    assert(rest.skip(k + 1) =~= s@.skip(i + 1));
                    assert(line@ == strip_cr(rest.take(k as int)));
                    assert(lines(rest) == seq![strip_cr(rest.take(k as int))] + lines(rest.skip(k + 1)));
                }
                let ghost line_view = line@;
                out.push(line);
                p = i + 1;
                proof {
                    assert(views(out@) =~= before.push(line_view));
                    assert(views(out@) + lines(s@.skip(p as int)) =~= before + lines(rest));
                }
            },
            None => {
                let line = slice_copy(s, p, s.len());
                proof {
                    assert(!exists|j: int| first_char_at(rest, '\n', j)) by {
                        if exists|j: int| first_char_at(rest, '\n', j) {
                            let j = choose|j: int| first_char_at(rest, '\n', j);
                            assert(s@[p + j] == '\n');
                        }
                    }
                    assert(line@ =~= rest);
                    assert(lines(rest) == seq![rest]);
                }
                out.push(line);
                p = s.len();
                proof {
                    assert(s@.skip(p as int) =~= Seq::<char>::empty());
                    assert(views(out@) =~= before.push(rest));
                    assert(views(out@) + lines(s@.skip(p as int)) =~= before + lines(rest));
                }
            },
        }
    }
    proof {
        assert(s@.skip(p as int) =~= Seq::<char>::empty());
        assert(views(out@) + Seq::<Seq<char>>::empty() =~= views(out@));
    }
    out
}

// ---------------------------------------------------------------------------
// Results carrying text
// ---------------------------------------------------------------------------

/// The characters held by a result of strings.
pub open spec fn res_view(r: Result<String, String>) -> Result<Seq<char>, Seq<char>> {
    match r {
        Ok(s) => Ok(s@),
        Err(e) => Err(e@),
    }
}

/// The characters held by a result of character vectors.
pub open spec fn cres_view(r: Result<Vec<char>, Vec<char>>) -> Result<Seq<char>, Seq<char>> {
    match r {
        Ok(s) => Ok(s@),
        Err(e) => Err(e@),
    }
}

/// Converts a result of character vectors into a result of strings.
pub fn res_string(r: Result<Vec<char>, Vec<char>>) -> (o: Result<String, String>)
    ensures
        res_view(o) == cres_view(r),
{
    match r {
        Ok(v) => Ok(string_of(&v)),
        Err(e) => Err(string_of(&e)),
    }
}

/// `a + b + c`.
pub fn cat3(a: &[char], b: &[char], c: &[char]) -> (v: Vec<char>)
    ensures
        v@ == a@ + b@ + c@,
{
    let mut v = cat(a, b);
    push_all(&mut v, c);
    v
}

/// The characters of a string.
pub fn chars_of_string(s: &String) -> (v: Vec<char>)
    ensures
        v@ == s@,
{
    chars_of(s.as_str())
}

// ---------------------------------------------------------------------------
// Ordering of character sequences (the order of `String`'s `Ord`)
// ---------------------------------------------------------------------------

/// `a` comes strictly before `b` in lexicographic order of code points.
pub open spec fn seq_lt(a: Seq<char>, b: Seq<char>) -> bool
    decreases a.len(),
{
    if a.len() == 0 {
        b.len() > 0
    } else if b.len() == 0 {
        false
    } else if a[0] != b[0] {
        a[0] < b[0]
    } else {
        seq_lt(a.drop_first(), b.drop_first())
    }
}

/// No sequence comes before itself.
pub proof fn lemma_seq_lt_irreflexive(a: Seq<char>)
    ensures
        !seq_lt(a, a),
    decreases a.len(),
{
    if a.len() > 0 {
        lemma_seq_lt_irreflexive(a.drop_first());
    }
}

/// The order is transitive.
pub proof fn lemma_seq_lt_transitive(a: Seq<char>, b: Seq<char>, c: Seq<char>)
    requires
        seq_lt(a, b),
        seq_lt(b, c),
    ensures
        seq_lt(a, c),
    decreases a.len(),
{
    if a.len() > 0 && b.len() > 0 && c.len() > 0 && a[0] == b[0] && b[0] == c[0] {
        lemma_seq_lt_transitive(a.drop_first(), b.drop_first(), c.drop_first());
    }
}

/// Two different sequences are ordered one way or the other.
pub proof fn lemma_seq_lt_total(a: Seq<char>, b: Seq<char>)
    requires
        a != b,
    ensures
        seq_lt(a, b) || seq_lt(b, a),
    decreases a.len(),
{
    if a.len() > 0 && b.len() > 0 && a[0] == b[0] {
        if a.drop_first() == b.drop_first() {
            assert(a =~= seq![a[0]] + a.drop_first());
            assert(b =~= seq![b[0]] + b.drop_first());
        }
        lemma_seq_lt_total(a.drop_first(), b.drop_first());
    } else if a.len() > 0 && b.len() > 0 {
    } else if a.len() == 0 && b.len() == 0 {
        assert(a =~= b);
    }
}

/// `a` comes strictly before `b`.
pub fn lt_chars(a: &[char], b: &[char]) -> (r: bool)
    ensures
        r == seq_lt(a@, b@),
{
    let mut i: usize = 0;
    proof {
        assert(a@.skip(0) =~= a@);
        assert(b@.skip(0) =~= b@);
    }
    while i < a.len() && i < b.len() && a[i] == b[i]
        invariant
            i <= a.len(),
            i <= b.len(),
            forall|j: int| 0 <= j < i ==> a@[j] == b@[j],
            seq_lt(a@, b@) == seq_lt(a@.skip(i as int), b@.skip(i as int)),
        decreases a.len() - i,
    {
        proof {
            assert(a@.skip(i as int).drop_first() =~= a@.skip(i + 1));
            assert(b@.skip(i as int).drop_first() =~= b@.skip(i + 1));
        }
        i = i + 1;
    }
    if i == a.len() {
        i < b.len()
    } else if i == b.len() {
        false
    } else {
        proof {
            assert(a@.skip(i as int)[0] == a@[i as int]);
            assert(b@.skip(i as int)[0] == b@[i as int]);
        }
        a[i] < b[i]
    }
}

/// Strictly increasing, hence free of duplicates.
pub open spec fn strictly_sorted(s: Seq<Seq<char>>) -> bool {
    forall|i: int, j: int| 0 <= i < j < s.len() ==> seq_lt(s[i], s[j])
}

/// Membership after an insertion.
pub proof fn lemma_insert_contains<A>(s: Seq<A>, p: int, x: A)
    requires
        0 <= p <= s.len(),
    ensures
        forall|y: A| #[trigger] s.insert(p, x).contains(y) <==> (s.contains(y) || y == x),
{
    assert forall|y: A| #[trigger] s.insert(p, x).contains(y) <==> (s.contains(y) || y == x) by {
        let t = s.insert(p, x);
        if t.contains(y) {
            let k = choose|k: int| 0 <= k < t.len() && t[k] == y;
            if k < p {
                assert(s[k] == y);
            } else if k > p {
                assert(s[k - 1] == y);
            }
        }
        if s.contains(y) {
            let k = choose|k: int| 0 <= k < s.len() && s[k] == y;
            if k < p {
                assert(t[k] == y);
            } else {
                assert(t[k + 1] == y);
            }
        }
        if y == x {
            assert(t[p] == y);
        }
    }
}

/// Membership after a push.
pub proof fn lemma_push_contains<A>(s: Seq<A>, x: A)
    ensures
        forall|y: A| #[trigger] s.push(x).contains(y) <==> (s.contains(y) || y == x),
{
    assert(s.push(x) =~= s.insert(s.len() as int, x));
    lemma_insert_contains(s, s.len() as int, x);
}

// ---------------------------------------------------------------------------
// Words
// ---------------------------------------------------------------------------

/// The words of `s[i..]` when `cur` is the word being read (`str::split_whitespace`).
pub open spec fn words_from(s: Seq<char>, i: int, cur: Seq<char>) -> Seq<Seq<char>>
    decreases s.len() - i,
{
    if i >= s.len() {
        if cur.len() > 0 { seq![cur] } else { seq![] }
    } else if is_ws(s[i]) {
        (if cur.len() > 0 { seq![cur] } else { seq![] }) + words_from(s, i + 1, seq![])
    } else {
        words_from(s, i + 1, cur.push(s[i]))
    }
}

/// The words of `s`: its maximal runs without white space.
pub open spec fn words(s: Seq<char>) -> Seq<Seq<char>> {
    words_from(s, 0, seq![])
}

/// The words of `s` (`str::split_whitespace`).
pub fn words_exec(s: &[char]) -> (r: Vec<Vec<char>>)
    ensures
        views(r@) == words(s@),
{
    let mut out: Vec<Vec<char>> = Vec::new();
    let mut cur: Vec<char> = Vec::new();
    let mut i: usize = 0;
    while i < s.len()
        invariant
            i <= s.len(),
            views(out@) + words_from(s@, i as int, cur@) == words(s@),
        decreases s.len() - i,
    {
        let ghost before = views(out@);
        if is_ws_exec(s[i]) {
            if cur.len() > 0 {
                let ghost w = cur@;
                out.push(cur);
                cur = Vec::new();
                proof {
                    assert(views(out@) =~= before.push(w));
                    assert(views(out@) + words_from(s@, i + 1, cur@) =~= before + (seq![w] + words_from(s@, i + 1, seq![])));
                }
            } else {
                proof {
                    assert(cur@ =~= Seq::<char>::empty());
                    assert(Seq::<Seq<char>>::empty() + words_from(s@, i + 1, seq![]) =~= words_from(s@, i + 1, seq![]));
                }
            }
        } else {
            cur.push(s[i]);
        }
        i = i + 1;
    }
    if cur.len() > 0 {
        let ghost before = views(out@);
        let ghost w = cur@;
        out.push(cur);
        assert(views(out@) =~= before.push(w));
        assert(views(out@) =~= before + seq![w]);
    } else {
        assert(views(out@) + Seq::<Seq<char>>::empty() =~= views(out@));
    }
    out
}

/// `parts` joined with `sep`.
pub open spec fn joined(parts: Seq<Seq<char>>, sep: Seq<char>) -> Seq<char>
    decreases parts.len(),
{
    if parts.len() == 0 {
        seq![]
    } else if parts.len() == 1 {
        parts[0]
    } else {
        joined(parts.drop_last(), sep) + sep + parts.last()
    }
}

/// The texts of `parts` joined with `sep`.
pub fn join_strings(parts: &[String], sep: &[char]) -> (v: Vec<char>)
    ensures
        v@ == joined(crate::config::strings_view(parts@), sep@),
{
    let ghost all = crate::config::strings_view(parts@);
    let mut out: Vec<char> = Vec::new();
    let mut i: usize = 0;
    while i < parts.len()
        invariant
            i <= parts.len(),
            all == crate::config::strings_view(parts@),
            out@ == joined(all.take(i as int), sep@),
        decreases parts.len() - i,
    {
        proof {
            assert(all.take(i + 1).drop_last() =~= all.take(i as int));
            assert(all.take(i + 1).last() == parts@[i as int]@);
        }
        if i > 0 {
            push_all(&mut out, sep);
        }
        push_all(&mut out, &chars_of_string(&parts[i]));
        proof {
            if i == 0 {
                assert(out@ =~= all.take(1)[0]);
            } else {
                assert(out@ =~= joined(all.take(i as int), sep@) + sep@ + all.take(i + 1).last());
            }
        }
        i = i + 1;
    }
    assert(all.take(parts.len() as int) =~= all);
    out
}

/// The texts of string slices.
pub open spec fn strs_view(parts: Seq<&str>) -> Seq<Seq<char>> {
    Seq::new(parts.len(), |i: int| parts[i]@)
}

/// The string slices `parts` joined with `sep`.
pub fn join_strs(parts: &[&str], sep: &[char]) -> (v: Vec<char>)
    ensures
        v@ == joined(strs_view(parts@), sep@),
{
    let ghost all = strs_view(parts@);
    let mut out: Vec<char> = Vec::new();
    let mut i: usize = 0;
    while i < parts.len()
        invariant
            i <= parts.len(),
            all == strs_view(parts@),
            out@ == joined(all.take(i as int), sep@),
        decreases parts.len() - i,
    {
        proof {
            assert(all.take(i + 1).drop_last() =~= all.take(i as int));
            assert(all.take(i + 1).last() == parts@[i as int]@);
        }
        if i > 0 {
            push_all(&mut out, sep);
        }
        push_all(&mut out, &chars_of(parts[i]));
        proof {
            if i == 0 {
                assert(out@ =~= all.take(1)[0]);
            } else {
                assert(out@ =~= joined(all.take(i as int), sep@) + sep@ + all.take(i + 1).last());
            }
        }
        i = i + 1;
    }
    assert(all.take(parts.len() as int) =~= all);
    out
}

} // verus!
