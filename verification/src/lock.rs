//! The process lock: what a lockfile holds, how it is read back, and what a found
//! lockfile means.
use crate::text::{
    all_digits, cat, cat3, chars_of, chars_of_string, decimal, decimal_exec, digit_char, digits_value, eq,
    first_char_at, is_digit, is_prefix, is_ws, lines, lines_exec, lit, parse_unsigned, parse_unsigned_exec,
    strip_cr, strip_prefix, strip_prefix_exec, string_of, trim, trim_end, trim_exec, trim_start, unsigned_digits,
    views,
};
use vstd::prelude::*;

verus! {

/// A held process lock at `path`.
pub struct FileLock {
    pub path: String,
}

/// What an existing lockfile means.
pub enum LockState {
    Missing,
    Active { pid: u32 },
    Stale { reason: String },
}

/// Who holds a lock: the process id and the boot it ran in.
pub struct LockMetadata {
    pub pid: u32,
    pub boot_id: String,
}

/// The content of a lockfile for `pid` and `boot_id`.
pub open spec fn serialize_spec(pid: u32, boot_id: Seq<char>) -> Seq<char> {
    "pid="@ + decimal(pid as nat) + "\n"@ + "boot_id="@ + boot_id + "\n"@
}

/// Reads the lockfile lines from `i` on, with the values found so far: a `pid=` line
/// must hold a number (the last one counts), a `boot_id=` line with a non-empty
/// value sets the boot id (the last one counts).
pub open spec fn parse_lines(ls: Seq<Seq<char>>, i: int, pid: Option<u32>, boot: Option<Seq<char>>) -> Result<(u32, Seq<char>), Seq<char>>
    decreases ls.len() - i,
{
    if i >= ls.len() {
        match (pid, boot) {
            (None, _) => Err("Missing pid in lockfile"@),
            (Some(_), None) => Err("Missing boot_id in lockfile"@),
            (Some(p), Some(b)) => Ok((p, b)),
        }
    } else {
        match strip_prefix(ls[i], "pid="@) {
            Some(v) => match parse_unsigned(trim(v), u32::MAX as nat) {
                Some(n) => parse_lines(ls, i + 1, Some(n as u32), boot),
                None => Err("Invalid pid value in lockfile: "@ + v),
            },
            None => match strip_prefix(ls[i], "boot_id="@) {
                Some(v) => if trim(v).len() > 0 {
                    parse_lines(ls, i + 1, pid, Some(trim(v)))
                } else {
                    parse_lines(ls, i + 1, pid, boot)
                },
                None => parse_lines(ls, i + 1, pid, boot),
            },
        }
    }
}

/// What a lockfile's content says.
pub open spec fn parse_spec(content: Seq<char>) -> Result<(u32, Seq<char>), Seq<char>> {
    parse_lines(lines(content), 0, None, None)
}

impl LockMetadata {
    /// `pid=…` and `boot_id=…`, one per line.
    pub fn serialize(&self) -> (r: String)
        ensures
            r@ == serialize_spec(self.pid, self.boot_id@),
    {
        let a = cat3(&lit("pid="), &decimal_exec(self.pid as u64), &lit("\n"));
        let b = cat3(&lit("boot_id="), &chars_of_string(&self.boot_id), &lit("\n"));
        let s = cat(&a, &b);
        assert(s@ =~= serialize_spec(self.pid, self.boot_id@));
        string_of(&s)
    }

    /// Reads the holder from a lockfile's content.
    pub fn parse(content: &str) -> (r: Result<LockMetadata, String>)
        ensures
            match parse_spec(content@) {
                Ok((p, b)) => r matches Ok(m) && m.pid == p && m.boot_id@ == b,
                Err(e) => r matches Err(m) && m@ == e,
            },
    {
        let ls = lines_exec(&chars_of(content));
        let mut pid: Option<u32> = None;
        let mut boot: Option<Vec<char>> = None;
        let mut i: usize = 0;
        while i < ls.len()
            invariant
                i <= ls.len(),
                views(ls@) == lines(content@),
                parse_lines(views(ls@), i as int, pid, match boot { Some(b) => Some(b@), None => None })
                    == parse_lines(views(ls@), 0, None, None),
            decreases ls.len() - i,
        {
            assert(views(ls@)[i as int] == ls@[i as int]@);
            match strip_prefix_exec(&ls[i], &lit("pid=")) {
                Some(v) => {
                    let t = trim_exec(&v);
                    match parse_unsigned_exec(&t, 4294967295u64) {
                        Some(n) => {
                            pid = Some(n as u32);
                        },
                        None => {
                            return Err(string_of(&cat(&lit("Invalid pid value in lockfile: "), &v)));
                        },
                    }
                },
                None => match strip_prefix_exec(&ls[i], &lit("boot_id=")) {
                    Some(v) => {
                        let t = trim_exec(&v);
                        if t.len() > 0 {
                            boot = Some(t);
                        }
                    },
                    None => {},
                },
            }
            i = i + 1;
        }
        match pid {
            None => Err(String::from_str("Missing pid in lockfile")),
            Some(p) => match boot {
                None => Err(String::from_str("Missing boot_id in lockfile")),
                Some(b) => Ok(LockMetadata { pid: p, boot_id: string_of(&b) }),
            },
        }
    }
}

// ---------------------------------------------------------------------------
// The round trip
// ---------------------------------------------------------------------------

proof fn lemma_digit_char(d: nat)
    requires
        d < 10,
    ensures
        is_digit(digit_char(d)),
        ((digit_char(d) as u32) - 48) as nat == d,
{
    assert(((d + 48) as u32) as char as u32 == (d + 48) as u32);
}

proof fn lemma_decimal_digits(n: nat)
    ensures
        decimal(n).len() > 0,
        all_digits(decimal(n)),
        digits_value(decimal(n)) == n,
    decreases n,
{
    let d = decimal(n);
    if n >= 10 {
        lemma_decimal_digits(n / 10);
        lemma_digit_char(n % 10);
        assert(d.drop_last() =~= decimal(n / 10));
        assert(d.last() == digit_char(n % 10));
        assert(digits_value(d) == digits_value(d.drop_last()) * 10 + ((d.last() as u32) - 48) as nat);
        assert(n == (n / 10) * 10 + n % 10);
        assert forall|i: int| 0 <= i < d.len() implies is_digit(#[trigger] d[i]) by {
            if i < d.len() - 1 {
                assert(d[i] == decimal(n / 10)[i]);
            }
        }
    } else {
        lemma_digit_char(n);
        assert(d.drop_last() =~= Seq::<char>::empty());
        assert(digits_value(d) == digits_value(d.drop_last()) * 10 + ((d.last() as u32) - 48) as nat);
    }
}

proof fn lemma_trim_end_last(s: Seq<char>)
    ensures
        trim_end(s).len() > 0 ==> !is_ws(trim_end(s).last()),
    decreases s.len(),
{
    if s.len() > 0 && is_ws(s.last()) {
        lemma_trim_end_last(s.drop_last());
    }
}

proof fn lemma_trim_no_ws(s: Seq<char>)
    requires
        s.len() > 0,
        !is_ws(s[0]),
        !is_ws(s.last()),
    ensures
        trim(s) == s,
{
}

proof fn lemma_parse_number(n: u32)
    ensures
        parse_unsigned(trim(decimal(n as nat)), u32::MAX as nat) == Some(n as nat),
{
    let d = decimal(n as nat);
    lemma_decimal_digits(n as nat);
    assert(is_digit(d[0]) && is_digit(d.last()));
    lemma_trim_no_ws(d);
    assert(unsigned_digits(d) == d);
}

proof fn lemma_line_before_newline(s: Seq<char>, i: int)
    requires
        0 <= i < s.len(),
        s[i] == '\n',
        forall|j: int| 0 <= j < i ==> s[j] != '\n',
    ensures
        lines(s) == seq![strip_cr(s.take(i))] + lines(s.skip(i + 1)),
{
    assert(first_char_at(s, '\n', i));
    let k = choose|k: int| first_char_at(s, '\n', k);
    assert(k == i) by {
        if k < i {
            assert(s[k] != '\n');
        }
        if i < k {
            assert(s[i] != '\n');
        }
    }
}

/// Reading back a lockfile gives what was written: the pid, and the boot id when it is
/// a single line without surrounding white space (as `/proc` gives it, trimmed).
pub proof fn law_lockfile_round_trip(pid: u32, boot_id: Seq<char>)
    requires
        boot_id.len() > 0,
        trim(boot_id) == boot_id,
        forall|j: int| 0 <= j < boot_id.len() ==> boot_id[j] != '\n',
    ensures
        parse_spec(serialize_spec(pid, boot_id)) == Ok::<(u32, Seq<char>), Seq<char>>((pid, boot_id)),
{
    let d = decimal(pid as nat);
    lemma_decimal_digits(pid as nat);
    let l1 = "pid="@ + d;
    let l2 = "boot_id="@ + boot_id;
    let s = serialize_spec(pid, boot_id);
    reveal_strlit("pid=");
    reveal_strlit("boot_id=");
    reveal_strlit("\n");
    let rest = l2 + "\n"@;
    assert(s =~= l1 + "\n"@ + rest);
    let i = l1.len() as int;
    assert forall|j: int| 0 <= j < i implies s[j] != '\n' by {
        if j >= 4 {
            assert(s[j] == d[j - 4]);
            assert(is_digit(d[j - 4]));
        }
    }
    lemma_line_before_newline(s, i);
    assert(s.take(i) =~= l1);
    assert(s.skip(i + 1) =~= rest);
    let k = l2.len() as int;
    assert forall|j: int| 0 <= j < k implies rest[j] != '\n' by {
        if j >= 8 {
            assert(rest[j] == boot_id[j - 8]);
        }
    }
    lemma_line_before_newline(rest, k);
    assert(rest.take(k) =~= l2);
    assert(rest.skip(k + 1) =~= Seq::<char>::empty());
    assert(is_digit(l1.last()));
    assert(strip_cr(l1) == l1);
    lemma_trim_end_last(trim_start(boot_id));
    assert(l2.last() == boot_id.last());
    assert(!is_ws(boot_id.last()));
    assert(strip_cr(l2) == l2);
    let ls = lines(s);
    assert(ls =~= seq![l1, l2]);
    assert(strip_prefix(l1, "pid="@) == Some(d)) by {
        assert(l1.subrange(0, 4) =~= "pid="@);
        assert(l1.skip(4) =~= d);
    }
    lemma_parse_number(pid);
    assert(strip_prefix(l2, "pid="@) is None) by {
        assert(l2.subrange(0, 4)[0] == 'b');
        assert("pid="@[0] == 'p');
    }
    assert(strip_prefix(l2, "boot_id="@) == Some(boot_id)) by {
        assert(l2.subrange(0, 8) =~= "boot_id="@);
        assert(l2.skip(8) =~= boot_id);
    }
    assert(ls[0] == l1 && ls[1] == l2);
    assert(parse_lines(ls, 2, Some(pid), Some(boot_id)) == Ok::<(u32, Seq<char>), Seq<char>>((pid, boot_id)));
    assert(parse_lines(ls, 1, Some(pid), None) == parse_lines(ls, 2, Some(pid), Some(boot_id)));
    assert(parse_lines(ls, 0, None, None) == parse_lines(ls, 1, Some(pid), None));
}

proof fn lemma_trim_start_is_suffix(s: Seq<char>)
    ensures
        trim_start(s).len() <= s.len(),
        trim_start(s).len() > 0 ==> trim_start(s).last() == s.last(),
    decreases s.len(),
{
    if s.len() > 0 && is_ws(s[0]) {
        lemma_trim_start_is_suffix(s.drop_first());
    }
}

// ---------------------------------------------------------------------------
// What a found lockfile means
// ---------------------------------------------------------------------------

/// The state of a readable lock held by `pid` from boot `boot_id`, seen from boot
/// `current_boot_id`, where `pid_running` tells whether that process still exists.
pub open spec fn metadata_state(pid: u32, boot_id: Seq<char>, current_boot_id: Seq<char>, pid_running: bool) -> (bool, u32, Seq<char>) {
    if boot_id != current_boot_id {
        (false, pid, "lockfile belongs to a previous boot (pid "@ + decimal(pid as nat) + ")"@)
    } else if pid == 0 {
        (false, pid, "lockfile contains an invalid pid"@)
    } else if pid_running {
        (true, pid, seq![])
    } else {
        (false, pid, "pid "@ + decimal(pid as nat) + " is no longer running"@)
    }
}

/// Whether a state is active for `pid`, or stale for `reason`.
pub open spec fn state_is(s: LockState, active: bool, pid: u32, reason: Seq<char>) -> bool {
    if active {
        s == LockState::Active { pid }
    } else {
        s matches LockState::Stale { reason: r } && r@ == reason
    }
}

/// The state of a lock whose file names its holder.
pub fn lock_state_of(metadata: &LockMetadata, current_boot_id: &str, pid_running: bool) -> (r: LockState)
    ensures
        ({
            let (a, p, m) = metadata_state(metadata.pid, metadata.boot_id@, current_boot_id@, pid_running);
            state_is(r, a, p, m)
        }),
{
    let pid = metadata.pid;
    if !eq(&chars_of_string(&metadata.boot_id), &chars_of(current_boot_id)) {
        return LockState::Stale {
            reason: string_of(&cat3(&lit("lockfile belongs to a previous boot (pid "), &decimal_exec(pid as u64), &lit(")"))),
        };
    }
    if pid == 0 {
        return LockState::Stale { reason: String::from_str("lockfile contains an invalid pid") };
    }
    if pid_running {
        LockState::Active { pid }
    } else {
        LockState::Stale {
            reason: string_of(&cat3(&lit("pid "), &decimal_exec(pid as u64), &lit(" is no longer running"))),
        }
    }
}

/// The state of a lockfile that cannot be read as one: older than the boot, it is a
/// leftover of the previous lock format; otherwise it is malformed.
pub fn unreadable_lock_state(modified_before_boot: bool) -> (r: LockState)
    ensures
        state_is(r, false, 0, if modified_before_boot {
            "legacy lockfile from before the current boot"@
        } else {
            "lockfile has an invalid format"@
        }),
{
    if modified_before_boot {
        LockState::Stale { reason: String::from_str("legacy lockfile from before the current boot") }
    } else {
        LockState::Stale { reason: String::from_str("lockfile has an invalid format") }
    }
}

/// The boot time in `/proc/stat`: the number after `btime ` on the first line that has it.
pub open spec fn btime_from(ls: Seq<Seq<char>>) -> Result<u64, Seq<char>>
    decreases ls.len(),
{
    if ls.len() == 0 {
        Err("Failed to find system boot time"@)
    } else {
        match strip_prefix(ls[0], "btime "@) {
            Some(v) => match parse_unsigned(v, u64::MAX as nat) {
                Some(n) => Ok(n as u64),
                None => Err("Failed to parse system boot time"@),
            },
            None => btime_from(ls.drop_first()),
        }
    }
}

/// Reads the boot time (seconds since the epoch) from the content of `/proc/stat`.
pub fn boot_time_from_stat(stat: &str) -> (r: Result<u64, String>)
    ensures
        match btime_from(lines(stat@)) {
            Ok(n) => r == Ok::<u64, String>(n),
            Err(e) => r matches Err(m) && m@ == e,
        },
{
    let ls = lines_exec(&chars_of(stat));
    let mut i: usize = 0;
    assert(views(ls@).skip(0) =~= views(ls@));
    while i < ls.len()
        invariant
            i <= ls.len(),
            views(ls@) == lines(stat@),
            btime_from(views(ls@).skip(i as int)) == btime_from(views(ls@)),
        decreases ls.len() - i,
    {
        let ghost rest = views(ls@).skip(i as int);
        assert(rest[0] == ls@[i as int]@);
        assert(rest.drop_first() =~= views(ls@).skip(i + 1));
        match strip_prefix_exec(&ls[i], &lit("btime ")) {
            Some(v) => {
                return match parse_unsigned_exec(&v, u64::MAX) {
                    Some(n) => Ok(n),
                    None => Err(String::from_str("Failed to parse system boot time")),
                };
            },
            None => {},
        }
        i = i + 1;
    }
    Err(String::from_str("Failed to find system boot time"))
}

/// The boot id as `/proc/sys/kernel/random/boot_id` holds it, trimmed.
pub fn boot_id_from(content: &str) -> (r: String)
    ensures
        r@ == trim(content@),
{
    string_of(&trim_exec(&chars_of(content)))
}

} // verus!
