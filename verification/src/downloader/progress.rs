//! The progress display of running downloads, as state: which bars exist, how far
//! each is, and when one needs redrawing. Drawing it is left to the terminal side.
use crate::text::{cat, cat3, chars_of, decimal, decimal_exec, lit, string_of};
use vstd::prelude::*;

verus! {

/// One progress bar.
pub struct ProgressEntry {
    pub id: usize,
    pub name: String,
    pub total: u64,
    pub downloaded: u64,
    pub last_percent: u64,
}

/// A reference to a progress bar.
#[derive(Clone, Copy, Debug, PartialEq, Eq, Structural)]
pub struct ProgressHandle {
    pub id: usize,
}

/// The set of progress bars.
pub struct ProgressUi {
    pub enabled: bool,
    next_id: usize,
    rendered_lines: usize,
    entries: Vec<ProgressEntry>,
}

/// `a + b`, capped at `u64::MAX`.
pub open spec fn sat_add(a: u64, b: u64) -> u64 {
    if a + b > u64::MAX { u64::MAX } else { (a + b) as u64 }
}

/// `a * b`, capped at `u64::MAX`.
pub open spec fn sat_mul(a: u64, b: u64) -> u64 {
    if a * b > u64::MAX { u64::MAX } else { (a * b) as u64 }
}

/// The percentage shown for `downloaded` of `total` bytes, at most 100.
pub open spec fn percent_of(downloaded: u64, total: u64) -> u64 {
    let p = sat_mul(downloaded, 100) / total;
    if p > 100 { 100 } else { p }
}

impl ProgressUi {
    /// The bars, in the order they were begun: id, name, total, downloaded, last percent drawn.
    pub closed spec fn bars(&self) -> Seq<(usize, Seq<char>, u64, u64, u64)> {
        self.entries@.map_values(|e: ProgressEntry| (e.id, e.name@, e.total, e.downloaded, e.last_percent))
    }

    /// Whether the display is on.
    pub closed spec fn is_enabled(&self) -> bool {
        self.enabled
    }

    /// The id the next bar gets.
    pub closed spec fn next_id(&self) -> usize {
        self.next_id
    }

    /// How many lines are on the screen.
    pub closed spec fn rendered_lines(&self) -> usize {
        self.rendered_lines
    }

    /// Every bar has a positive total.
    pub open spec fn wf(&self) -> bool {
        forall|i: int| 0 <= i < self.bars().len() ==> (#[trigger] self.bars()[i]).2 > 0
    }

    /// No bars, nothing drawn.
    pub fn new(enabled: bool) -> (r: Self)
        ensures
            r.is_enabled() == enabled,
            r.next_id() == 0,
            r.rendered_lines() == 0,
            r.bars() == Seq::<(usize, Seq<char>, u64, u64, u64)>::empty(),
            r.wf(),
    {
        let r = ProgressUi { enabled, next_id: 0, rendered_lines: 0, entries: Vec::new() };
        assert(r.bars() =~= Seq::<(usize, Seq<char>, u64, u64, u64)>::empty());
        r
    }

    /// Starts a bar for a download of `total` bytes; none when the display is off or
    /// the size is unknown (zero).
    pub fn begin(&mut self, total: u64, name: &str) -> (r: Option<ProgressHandle>)
        requires
            old(self).wf(),
        ensures
            final(self).wf(),
            final(self).is_enabled() == old(self).is_enabled(),
            final(self).rendered_lines() == old(self).rendered_lines(),
            !old(self).is_enabled() || total == 0 ==> r is None && final(self).bars() == old(self).bars()
                && final(self).next_id() == old(self).next_id(),
            old(self).is_enabled() && total > 0 ==> r == Some(ProgressHandle { id: old(self).next_id() })
                && final(self).bars() == old(self).bars().push((old(self).next_id(), name@, total, 0u64, 0u64))
                && final(self).next_id() == if old(self).next_id() == usize::MAX { usize::MAX } else { (old(self).next_id() + 1) as usize },
    {
        if !self.enabled || total == 0 {
            return None;
        }
        let id = self.next_id;
        self.next_id = if self.next_id == usize::MAX { usize::MAX } else { self.next_id + 1 };
        let ghost before = self.entries@;
        let e = ProgressEntry { id, name: String::from_str(name), total, downloaded: 0, last_percent: 0 };
        self.entries.push(e);
        proof {
            assert(self.entries@ == before.push(e));
            assert(self.bars() =~= old(self).bars().push((id, name@, total, 0u64, 0u64)));
        }
        Some(ProgressHandle { id })
    }

    fn position(&self, id: usize) -> (r: Option<usize>)
        ensures
            r matches Some(i) ==> i < self.bars().len() && self.bars()[i as int].0 == id
                && forall|j: int| 0 <= j < i ==> (#[trigger] self.bars()[j]).0 != id,
            r is None ==> forall|j: int| 0 <= j < self.bars().len() ==> (#[trigger] self.bars()[j]).0 != id,
    {
        let mut i: usize = 0;
        while i < self.entries.len()
            invariant
                i <= self.entries@.len(),
                self.bars().len() == self.entries@.len(),
                forall|j: int| 0 <= j < i ==> (#[trigger] self.bars()[j]).0 != id,
            decreases self.entries@.len() - i,
        {
            assert(self.bars()[i as int].0 == self.entries@[i as int].id);
            if self.entries[i].id == id {
                return Some(i);
            }
            i = i + 1;
        }
        None
    }

    /// Adds `amount` downloaded bytes to the first bar with `id`. The bar records a new
    /// percentage, and `true` asks for a redraw, when it moved by at least five points
    /// or when a redraw is due anyway (`redraw_due`: the last one is at least 120 ms old).
    pub fn inc(&mut self, id: usize, amount: u64, redraw_due: bool) -> (r: bool)
        requires
            old(self).wf(),
        ensures
            final(self).wf(),
            final(self).is_enabled() == old(self).is_enabled(),
            final(self).next_id() == old(self).next_id(),
            final(self).rendered_lines() == old(self).rendered_lines(),
            final(self).bars().len() == old(self).bars().len(),
            (forall|j: int| 0 <= j < old(self).bars().len() ==> (#[trigger] old(self).bars()[j]).0 != id) ==>
                !r && final(self).bars() == old(self).bars(),
            forall|i: int| 0 <= i < old(self).bars().len() && old(self).bars()[i].0 == id
                && (forall|j: int| 0 <= j < i ==> (#[trigger] old(self).bars()[j]).0 != id) ==> {
                    let b = old(self).bars()[i];
                    let d = sat_add(b.3, amount);
                    let p = percent_of(d, b.2);
                    let draw = p >= sat_add(b.4, 5) || redraw_due;
                    &&& r == draw
                    &&& final(self).bars() == old(self).bars().update(i, (b.0, b.1, b.2, d, if draw { p } else { b.4 }))
                },
    {
        match self.position(id) {
            None => false,
            Some(i) => {
                let ghost b = self.bars()[i as int];
                let ghost old_entries = self.entries@;
                assert(self.entries@[i as int].total == b.2 && self.entries@[i as int].downloaded == b.3);
                let downloaded = self.entries[i].downloaded.saturating_add(amount);
                let total = self.entries[i].total;
                let product = match downloaded.checked_mul(100) {
                    Some(p) => p,
                    None => u64::MAX,
                };
                let q = product / total;
                let percent = if q > 100 { 100 } else { q };
                let draw = percent >= self.entries[i].last_percent.saturating_add(5) || redraw_due;
                let new_last = if draw { percent } else { self.entries[i].last_percent };
                let name = self.entries[i].name.clone();
                let e = ProgressEntry { id, name, total, downloaded, last_percent: new_last };
                self.entries.set(i, e);
                proof {
                    assert(self.entries@ == old_entries.update(i as int, e));
                    assert(self.bars() =~= old(self).bars().update(i as int, (b.0, b.1, b.2, downloaded, new_last)));
                    assert forall|k: int| 0 <= k < old(self).bars().len() && old(self).bars()[k].0 == id
                        && (forall|j: int| 0 <= j < k ==> (#[trigger] old(self).bars()[j]).0 != id) implies k == i by {
                        if k < i {
                            assert(old(self).bars()[k].0 != id);
                        }
                        if i < k {
                            assert(old(self).bars()[i as int].0 != id);
                        }
                    }
                }
                draw
            },
        }
    }

    /// Removes the first bar with `id`; `true` when there was one (the display is then
    /// cleared and redrawn).
    pub fn abandon(&mut self, id: usize) -> (r: bool)
        requires
            old(self).wf(),
        ensures
            final(self).wf(),
            final(self).is_enabled() == old(self).is_enabled(),
            final(self).next_id() == old(self).next_id(),
            final(self).rendered_lines() == old(self).rendered_lines(),
            (forall|j: int| 0 <= j < old(self).bars().len() ==> (#[trigger] old(self).bars()[j]).0 != id) ==>
                !r && final(self).bars() == old(self).bars(),
            forall|i: int| 0 <= i < old(self).bars().len() && old(self).bars()[i].0 == id
                && (forall|j: int| 0 <= j < i ==> (#[trigger] old(self).bars()[j]).0 != id) ==>
                r && final(self).bars() == old(self).bars().remove(i),
    {
        match self.position(id) {
            None => false,
            Some(i) => {
                let ghost old_entries = self.entries@;
                self.entries.remove(i);
                proof {
                    assert(self.entries@ == old_entries.remove(i as int));
                    assert(self.bars() =~= old(self).bars().remove(i as int));
                    assert forall|k: int| 0 <= k < old(self).bars().len() && old(self).bars()[k].0 == id
                        && (forall|j: int| 0 <= j < k ==> (#[trigger] old(self).bars()[j]).0 != id) implies k == i by {
                        if k < i {
                            assert(old(self).bars()[k].0 != id);
                        }
                        if i < k {
                            assert(old(self).bars()[i as int].0 != id);
                        }
                    }
                    assert forall|k: int| 0 <= k < self.bars().len() implies (#[trigger] self.bars()[k]).2 > 0 by {
                        if k < i {
                            assert(self.bars()[k] == old(self).bars()[k]);
                        } else {
                            assert(self.bars()[k] == old(self).bars()[k + 1]);
                        }
                    }
                }
                true
            },
        }
    }

    /// The lines to erase before drawing anew: all rendered ones when the display is
    /// on; afterwards nothing is rendered.
    pub fn clear_rendered(&mut self) -> (r: usize)
        ensures
            r == if old(self).is_enabled() { old(self).rendered_lines() } else { 0 },
            final(self).rendered_lines() == if old(self).is_enabled() { 0 } else { old(self).rendered_lines() },
            final(self).bars() == old(self).bars(),
            final(self).is_enabled() == old(self).is_enabled(),
            final(self).next_id() == old(self).next_id(),
    {
        if self.rendered_lines == 0 || !self.enabled {
            return 0;
        }
        let n = self.rendered_lines;
        self.rendered_lines = 0;
        n
    }

    /// Notes that `lines` bar lines are now on screen.
    pub fn set_rendered(&mut self, lines: usize)
        ensures
            final(self).rendered_lines() == lines,
            final(self).bars() == old(self).bars(),
            final(self).is_enabled() == old(self).is_enabled(),
            final(self).next_id() == old(self).next_id(),
    {
        self.rendered_lines = lines;
    }

    /// Clears the display and drops every bar; returns the lines to erase.
    pub fn clear_all(&mut self) -> (r: usize)
        ensures
            r == if old(self).is_enabled() { old(self).rendered_lines() } else { 0 },
            final(self).rendered_lines() == if old(self).is_enabled() { 0 } else { old(self).rendered_lines() },
            final(self).bars() == Seq::<(usize, Seq<char>, u64, u64, u64)>::empty(),
            final(self).wf(),
            final(self).is_enabled() == old(self).is_enabled(),
            final(self).next_id() == old(self).next_id(),
    {
        let n = self.clear_rendered();
        self.entries.clear();
        assert(self.bars() =~= Seq::<(usize, Seq<char>, u64, u64, u64)>::empty());
        n
    }

    /// The bar at position `i`: its id, name, total and downloaded bytes.
    pub fn bar(&self, i: usize) -> (r: (usize, String, u64, u64))
        requires
            i < self.bars().len(),
        ensures
            r.0 == self.bars()[i as int].0,
            r.1@ == self.bars()[i as int].1,
            r.2 == self.bars()[i as int].2,
            r.3 == self.bars()[i as int].3,
    {
        let e = &self.entries[i];
        (e.id, e.name.clone(), e.total, e.downloaded)
    }

    /// The number of bars.
    pub fn bar_count(&self) -> (r: usize)
        ensures
            r == self.bars().len(),
    {
        self.entries.len()
    }
}

/// The width of a drawn bar, in cells.
pub const BAR_WIDTH: u64 = 24;

/// The percentage of a bar and how many of its cells are filled and empty.
pub fn bar_cells(downloaded: u64, total: u64) -> (r: (u64, u64, u64))
    requires
        total > 0,
    ensures
        r.0 == percent_of(downloaded, total),
        r.1 == r.0 * BAR_WIDTH / 100,
        r.1 + r.2 == BAR_WIDTH,
{
    let product = match downloaded.checked_mul(100) {
        Some(p) => p,
        None => u64::MAX,
    };
    let q = product / total;
    let percent = if q > 100 { 100 } else { q };
    let filled = percent * BAR_WIDTH / 100;
    assert(filled <= BAR_WIDTH) by (nonlinear_arith)
        requires percent <= 100, filled == percent * 24 / 100;
    (percent, filled, BAR_WIDTH - filled)
}

/// 2^53: every integer below it is exactly a double.
pub open spec fn exact_double_limit() -> nat {
    0x20_0000_0000_0000
}

/// The distance between neighbouring doubles around `b`: 1 below 2^53, doubling
/// with each further binary digit.
pub open spec fn double_spacing(b: nat) -> nat
    decreases b,
{
    if b < exact_double_limit() { 1 } else { 2 * double_spacing(b / 2) }
}

/// `b` rounded to the nearest double, ties to the even neighbour.
pub open spec fn as_double(b: nat) -> nat {
    let p = double_spacing(b);
    let q = b / p;
    let r = b % p;
    if 2 * r > p || (2 * r == p && q % 2 == 1) { (q + 1) * p } else { q * p }
}

/// `1024^k`.
pub open spec fn pow1024(k: nat) -> nat
    decreases k,
{
    if k == 0 { 1 } else { 1024 * pow1024((k - 1) as nat) }
}

/// The size unit for `v` bytes, going up from unit `k` while `v` is at least 1024 of
/// the next one, and no further than TiB.
pub open spec fn size_unit_from(v: nat, k: nat) -> nat
    decreases 4 - k,
{
    if k < 4 && v >= pow1024(k + 1) { size_unit_from(v, k + 1) } else { k }
}

/// `n / d` rounded to the nearest integer, ties to the even one.
pub open spec fn round_half_even_div(n: nat, d: nat) -> nat {
    let q = n / d;
    let r = n % d;
    if 2 * r > d || (2 * r == d && q % 2 == 1) { q + 1 } else { q }
}

/// The name of size unit `k`.
pub open spec fn unit_name(k: nat) -> Seq<char> {
    if k == 0 { "B"@ } else if k == 1 { "KiB"@ } else if k == 2 { "MiB"@ } else if k == 3 { "GiB"@ } else { "TiB"@ }
}

/// A byte count for people: whole bytes below 1 KiB, else the size (as a double) in
/// the largest binary unit up to TiB that it reaches, with one decimal.
pub open spec fn human_bytes_spec(bytes: u64) -> Seq<char> {
    let v = as_double(bytes as nat);
    let k = size_unit_from(v, 0);
    if k == 0 {
        decimal(bytes as nat) + "B"@
    } else {
        let t = round_half_even_div(v * 10, pow1024(k));
        decimal(t / 10) + "."@ + decimal(t % 10) + unit_name(k)
    }
}

fn as_double_exec(b: u64) -> (r: u128)
    ensures
        r == as_double(b as nat),
        r <= 2 * (b as nat) + 1,
{
    let mut p: u128 = 1;
    let mut c: u128 = b as u128;
    while c >= 0x20_0000_0000_0000
        invariant
            p >= 1,
            c == (b as nat) / (p as nat),
            p * c <= b,
            p == 1 || p <= b,
            double_spacing(b as nat) == p * double_spacing(c as nat),
        decreases c,
    {
        proof {
            vstd::arithmetic::div_mod::lemma_div_denominator(b as int, p as int, 2);
            let ghost x = double_spacing((c / 2) as nat);
            assert(double_spacing(c as nat) == 2 * x);
            assert(p * (2 * x) == (p * 2) * x) by (nonlinear_arith);
            assert((p * 2) * (c / 2) <= p * c) by (nonlinear_arith)
                requires p >= 1, c >= 0;
            assert(p * 2 <= b) by (nonlinear_arith)
                requires p * c <= b, c >= 2;
        }
        c = c / 2;
        p = p * 2;
    }
    let ghost bb = b as int;
    proof {
        vstd::arithmetic::div_mod::lemma_fundamental_div_mod(bb, p as int);
        assert(double_spacing(c as nat) == 1);
        let ghost x = double_spacing(c as nat);
        assert(p * x == p) by (nonlinear_arith)
            requires x == 1;
        assert(p == double_spacing(b as nat));
        assert(c * p == p * c) by (nonlinear_arith);
        assert(p <= b + 1);
    }
    let r: u128 = (b as u128) - p * c;
    assert(r == (b as nat) % (p as nat));
    let up = 2 * r > p || (2 * r == p && c % 2 == 1);
    if up {
        assert((c + 1) * p == c * p + p) by (nonlinear_arith);
        c * p + p
    } else {
        c * p
    }
}

/// A byte count for people, such as `512B` or `1.5MiB`.
pub fn human_bytes(bytes: u64) -> (r: String)
    ensures
        r@ == human_bytes_spec(bytes),
{
    let v = as_double_exec(bytes);
    proof {
        reveal_with_fuel(pow1024, 5);
        reveal_with_fuel(size_unit_from, 5);
        reveal_strlit("B");
    }
    let (k, d, name): (u32, u128, &str) = if v >= 0x100_0000_0000 {
        (4, 0x100_0000_0000, "TiB")
    } else if v >= 0x4000_0000 {
        (3, 0x4000_0000, "GiB")
    } else if v >= 0x10_0000 {
        (2, 0x10_0000, "MiB")
    } else if v >= 1024 {
        (1, 1024, "KiB")
    } else {
        (0, 1, "B")
    };
    assert(size_unit_from(v as nat, 0) == k);
    assert(d == pow1024(k as nat));
    assert(name@ == unit_name(k as nat));
    if k == 0 {
        return string_of(&cat(&decimal_exec(bytes), &lit("B")));
    }
    let n: u128 = v * 10;
    let q: u128 = n / d;
    let rem: u128 = n % d;
    let t: u128 = if 2 * rem > d || (2 * rem == d && q % 2 == 1) { q + 1 } else { q };
    assert(t == round_half_even_div(n as nat, d as nat));
    assert(q < 0x1000_0000_0000_0000) by (nonlinear_arith)
        requires q == n / d, d >= 1024, n <= 20 * 0xffff_ffff_ffff_ffff + 10;
    let t64: u64 = t as u64;
    let s = cat(&cat3(&decimal_exec(t64 / 10), &lit("."), &decimal_exec(t64 % 10)), &chars_of(name));
    string_of(&s)
}

/// Text in green.
pub fn green(text: &str) -> (r: String)
    ensures
        r@ == "\x1b[32m"@ + text@ + "\x1b[0m"@,
{
    string_of(&cat3(&lit("\x1b[32m"), &chars_of(text), &lit("\x1b[0m")))
}

/// The bar of one download, closed once.
pub struct ProgressGuard {
    pub handle: Option<ProgressHandle>,
    pub app_name: String,
    pub version: String,
    finished: bool,
}

impl ProgressGuard {
    /// The bar guarded.
    pub closed spec fn bar(&self) -> Option<ProgressHandle> {
        self.handle
    }

    /// The application name and version shown when the bar closes.
    pub closed spec fn labels(&self) -> (Seq<char>, Seq<char>) {
        (self.app_name@, self.version@)
    }

    /// Whether the bar was closed.
    pub closed spec fn is_finished(&self) -> bool {
        self.finished
    }

    /// A guard for `handle`.
    pub fn new(handle: Option<ProgressHandle>, app_name: &str, version: &str) -> (r: Self)
        ensures
            r.bar() == handle,
            r.labels() == (app_name@, version@),
            !r.is_finished(),
    {
        ProgressGuard {
            handle,
            app_name: String::from_str(app_name),
            version: String::from_str(version),
            finished: false,
        }
    }

    /// Closes the guard: the first time, the bar to finish (if there is one); after
    /// that, nothing.
    pub fn finish(&mut self) -> (r: Option<ProgressHandle>)
        ensures
            final(self).is_finished(),
            final(self).bar() == old(self).bar(),
            r == if old(self).is_finished() { None } else { old(self).bar() },
    {
        if self.finished {
            return None;
        }
        self.finished = true;
        self.handle
    }
}

} // verus!
