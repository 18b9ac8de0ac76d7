//! HTTP downloads: byte ranges for segmented downloads and the errors that decide
//! whether to retry or to give segmented downloads up.
use crate::text::{
    cat, cat3, chars_of, contains, contains_seq, decimal, decimal_exec, eq, lit, lower, parse_unsigned,
    parse_unsigned_exec, rsplit_once, rsplit_once_exec, string_of, to_lower,
};
use vstd::prelude::*;

verus! {

/// At most this many ranges are fetched at once.
pub const MAX_SEGMENTED_WORKERS: usize = 4;

/// Size of the read buffer, in bytes.
pub const DOWNLOAD_BUFFER_SIZE: usize = 65536;

/// What a ranged probe request found out.
pub enum SegmentProbe {
    Supported(u64),
    Unsupported,
}

/// An error message that shows the server does not honour range requests.
pub open spec fn refuses_ranges(message: Seq<char>) -> bool {
    contains_seq(message, "instead of 206"@) || contains_seq(message, "ignored HTTP range requests"@)
}

/// `Some(false)` when a failed segmented download shows the server refuses ranges.
pub fn segmented_support_from_error(message: &str) -> (r: Option<bool>)
    ensures
        r == if refuses_ranges(message@) { Some(false) } else { None::<bool> },
{
    let m = chars_of(message);
    if contains(&m, &lit("instead of 206")) || contains(&m, &lit("ignored HTTP range requests")) {
        Some(false)
    } else {
        None
    }
}

/// The total length named by a `Content-Range` value (after its last `/`).
pub open spec fn content_range_total(cr: Seq<char>) -> Result<u64, Seq<char>> {
    match rsplit_once(cr, "/"@) {
        None => Err("Invalid Content-Range header: "@ + cr),
        Some((_, total)) => if total == "*"@ {
            Err("Content-Range did not include a total length"@)
        } else {
            match parse_unsigned(total, u64::MAX as nat) {
                Some(n) => Ok(n as u64),
                None => Err("Invalid total length in Content-Range: "@ + cr),
            }
        },
    }
}

/// Reads the total length from a `Content-Range` header value.
pub fn parse_total_length_from_content_range(content_range: &str) -> (r: Result<u64, String>)
    ensures
        match content_range_total(content_range@) {
            Ok(n) => r == Ok::<u64, String>(n),
            Err(e) => r matches Err(m) && m@ == e,
        },
{
    let cr = chars_of(content_range);
    match rsplit_once_exec(&cr, &lit("/")) {
        None => Err(string_of(&cat(&lit("Invalid Content-Range header: "), &cr))),
        Some((_, total)) => {
            if eq(&total, &lit("*")) {
                return Err(String::from_str("Content-Range did not include a total length"));
            }
            match parse_unsigned_exec(&total, u64::MAX) {
                Some(n) => Ok(n),
                None => Err(string_of(&cat(&lit("Invalid total length in Content-Range: "), &cr))),
            }
        },
    }
}

/// How many ranges a download of `total` bytes is split into.
pub open spec fn segment_count_spec(total: nat) -> nat {
    if total < MAX_SEGMENTED_WORKERS { total } else { MAX_SEGMENTED_WORKERS as nat }
}

/// The ranges from segment `i` on: segment `i` starts at `i * chunk` and ends a chunk
/// later or at the last byte; a segment that would start past the end is left out.
pub open spec fn ranges_from(total: nat, count: nat, chunk: nat, i: nat) -> Seq<(nat, nat)>
    decreases count - i,
{
    if i >= count {
        seq![]
    } else {
        let start = i * chunk;
        let end = if start + chunk - 1 >= total { (total - 1) as nat } else { (start + chunk - 1) as nat };
        let rest = ranges_from(total, count, chunk, i + 1);
        if start > end { rest } else { seq![(start, end)] + rest }
    }
}

/// The byte ranges (inclusive) of a segmented download of `total` bytes.
pub open spec fn segment_ranges_spec(total: nat) -> Seq<(nat, nat)> {
    let count = segment_count_spec(total);
    let chunk = ((total + count - 1) as nat) / count;
    ranges_from(total, count, chunk, 0)
}

/// The ranges as pairs of numbers.
pub open spec fn range_views(v: Seq<(u64, u64)>) -> Seq<(nat, nat)> {
    Seq::new(v.len(), |i: int| (v[i].0 as nat, v[i].1 as nat))
}

/// Splits a download of `total_len` bytes into the ranges that the workers fetch, or
/// refuses a file too small to split.
pub fn segment_ranges(total_len: u64) -> (r: Result<Vec<(u64, u64)>, String>)
    requires
        total_len <= u64::MAX - 3,
    ensures
        total_len < 2 ==> (r matches Err(m) && m@ == "File too small for segmented download"@),
        total_len >= 2 ==> (r matches Ok(v) && range_views(v@) == segment_ranges_spec(total_len as nat)),
{
    let count: u64 = if total_len < 4 { total_len } else { 4 };
    if count < 2 {
        return Err(String::from_str("File too small for segmented download"));
    }
    let chunk: u64 = (total_len + (count - 1)) / count;
    proof {
        assert(chunk >= 1) by (nonlinear_arith)
            requires chunk as int == (total_len as int + count as int - 1) / (count as int), count >= 2, total_len >= count;
        assert(chunk * count <= total_len + count - 1) by (nonlinear_arith)
            requires chunk as int == (total_len as int + count as int - 1) / (count as int), count >= 2;
        assert(chunk * count < total_len + 4);
    }
    let mut out: Vec<(u64, u64)> = Vec::new();
    let mut i: u64 = 0;
    while i < count
        invariant
            0 <= i <= count <= 4,
            count >= 2,
            chunk >= 1,
            chunk * count < total_len + 4,
            total_len <= u64::MAX - 3,
            total_len >= 2,
            count == segment_count_spec(total_len as nat),
            chunk == ((total_len as nat + count - 1) as nat) / (count as nat),
            range_views(out@) + ranges_from(total_len as nat, count as nat, chunk as nat, i as nat)
                == ranges_from(total_len as nat, count as nat, chunk as nat, 0),
        decreases count - i,
    {
        proof {
            assert(i * chunk <= count * chunk) by (nonlinear_arith)
                requires i <= count, chunk >= 1;
            assert((i + 1) * chunk <= count * chunk) by (nonlinear_arith)
                requires i + 1 <= count, chunk >= 1;
            assert((i + 1) * chunk == i * chunk + chunk) by (nonlinear_arith);
        }
        let start: u64 = i * chunk;
        let end_candidate: u64 = start + chunk - 1;
        let end: u64 = if end_candidate >= total_len { total_len - 1 } else { end_candidate };
        let ghost prev = out@;
        let ghost rest = ranges_from(total_len as nat, count as nat, chunk as nat, (i + 1) as nat);
        if start <= end {
            out.push((start, end));
            proof {
                assert(range_views(out@) =~= range_views(prev).push((start as nat, end as nat)));
                assert(range_views(prev).push((start as nat, end as nat)) + rest =~= range_views(prev) + (seq![(start as nat, end as nat)] + rest));
            }
        }
        i = i + 1;
    }
    assert(range_views(out@) + Seq::<(nat, nat)>::empty() =~= range_views(out@));
    Ok(out)
}

proof fn lemma_ranges_from(total: nat, count: nat, chunk: nat, i: nat)
    requires
        chunk >= 1,
        count * chunk >= total,
        i <= count,
        total >= 1,
    ensures
        ({
            let r = ranges_from(total, count, chunk, i);
            if i * chunk < total {
                &&& r.len() >= 1
                &&& r[0].0 == i * chunk
                &&& r.last().1 == total - 1
                &&& forall|k: int| 0 <= k < r.len() ==> (#[trigger] r[k]).0 <= r[k].1
                &&& forall|k: int| 0 <= k < r.len() - 1 ==> (#[trigger] r[k + 1]).0 == r[k].1 + 1
            } else {
                r.len() == 0
            }
        }),
    decreases count - i,
{
    assert((i + 1) * chunk == i * chunk + chunk) by (nonlinear_arith);
    if i < count {
        lemma_ranges_from(total, count, chunk, i + 1);
        let r = ranges_from(total, count, chunk, i);
        let rest = ranges_from(total, count, chunk, i + 1);
        if i * chunk < total {
            let start = i * chunk;
            let end: nat = if start + chunk - 1 >= total { (total - 1) as nat } else { (start + chunk - 1) as nat };
            assert(r == seq![(start, end)] + rest);
            assert forall|k: int| 0 <= k < r.len() implies (#[trigger] r[k]).0 <= r[k].1 by {
                if k > 0 {
                    assert(r[k] == rest[k - 1]);
                }
            }
            assert forall|k: int| 0 <= k < r.len() - 1 implies (#[trigger] r[k + 1]).0 == r[k].1 + 1 by {
                assert(r[k + 1] == rest[k]);
                if k > 0 {
                    assert(r[k] == rest[k - 1]);
                    assert(rest[(k - 1) + 1].0 == rest[k - 1].1 + 1);
                } else {
                    assert(rest.len() > 0);
                    assert((i + 1) * chunk < total);
                    assert(end == start + chunk - 1);
                }
            }
        }
    } else {
        assert(i * chunk >= total) by (nonlinear_arith)
            requires i == count, count * chunk >= total;
    }
}

/// The ranges of a segmented download cover the file exactly: the first starts at
/// byte 0, each next one starts right after the previous one ends, the last ends at
/// the last byte, and none is empty.
pub proof fn law_segments_partition_file(total: nat)
    requires
        total >= 2,
    ensures
        ({
            let r = segment_ranges_spec(total);
            &&& r.len() >= 1
            &&& r[0].0 == 0
            &&& r.last().1 == total - 1
            &&& forall|k: int| 0 <= k < r.len() ==> (#[trigger] r[k]).0 <= r[k].1
            &&& forall|k: int| 0 <= k < r.len() - 1 ==> (#[trigger] r[k + 1]).0 == r[k].1 + 1
        }),
{
    let count = segment_count_spec(total);
    let chunk = ((total + count - 1) as nat) / count;
    assert(chunk >= 1 && count * chunk >= total) by (nonlinear_arith)
        requires chunk as int == (total as int + count as int - 1) / (count as int), count >= 2, total >= count;
    lemma_ranges_from(total, count, chunk, 0);
}

/// The `Range` header value for an inclusive byte range.
pub fn range_header(start: u64, end: u64) -> (r: String)
    ensures
        r@ == "bytes="@ + decimal(start as nat) + "-"@ + decimal(end as nat),
{
    string_of(&cat3(&cat(&lit("bytes="), &decimal_exec(start)), &lit("-"), &decimal_exec(end)))
}

/// Transport errors after which a download is tried once more with a fresh connection.
pub open spec fn retryable_chunk_message(message: Seq<char>) -> bool {
    let m = lower(message);
    contains_seq(m, "chunk length cannot be read as a number"@)
        || contains_seq(m, "chunk expected crlf as next character"@)
        || contains_seq(m, "chunk length is not ascii"@)
        || contains_seq(m, "body content after finish"@)
        || contains_seq(m, "unexpected eof"@)
        || contains_seq(m, "connection reset"@)
        || contains_seq(m, "connection aborted"@)
        || contains_seq(m, "broken pipe"@)
        || contains_seq(m, "timed out"@)
        || contains_seq(m, "failed to fill whole buffer"@)
}

/// Whether a failed download is worth one more try.
pub fn is_retryable_chunk_completion_error(message: &str) -> (r: bool)
    ensures
        r == retryable_chunk_message(message@),
{
    let m = to_lower(&chars_of(message));
    contains(&m, &lit("chunk length cannot be read as a number"))
        || contains(&m, &lit("chunk expected crlf as next character"))
        || contains(&m, &lit("chunk length is not ascii"))
        || contains(&m, &lit("body content after finish"))
        || contains(&m, &lit("unexpected eof"))
        || contains(&m, &lit("connection reset"))
        || contains(&m, &lit("connection aborted"))
        || contains(&m, &lit("broken pipe"))
        || contains(&m, &lit("timed out"))
        || contains(&m, &lit("failed to fill whole buffer"))
}


/// What a segmented download does next.
#[derive(Clone, Copy, Debug, PartialEq, Eq, Structural)]
pub enum SegmentedStep {
    /// Stop trying segments; the value is what is now known of range support.
    GiveUp(Option<bool>),
    /// Read the file's length with a HEAD request.
    AskLength,
    /// Probe range support with a one-byte range request.
    Probe,
    /// Fetch this many bytes in ranges.
    Download(u64),
}

/// What the segmented download has learnt so far.
pub enum SegmentedEvent {
    /// Nothing yet.
    Start,
    /// The HEAD request's length, when it gave one.
    Length(Option<u64>),
    /// What the probe found, `None` when the probe itself failed.
    Probed(Option<SegmentProbe>),
}

/// The next step, `cached` being what the state cache says of range support: a
/// server known to refuse ranges is not asked; one known to accept them is asked
/// for the length, else probed; a probe that finds ranges and at least two bytes
/// leads to the download, one that finds no ranges records that.
pub open spec fn segmented_step_spec(cached: Option<bool>, event: SegmentedEvent) -> SegmentedStep {
    match event {
        SegmentedEvent::Start => match cached {
            Some(false) => SegmentedStep::GiveUp(Some(false)),
            Some(true) => SegmentedStep::AskLength,
            None => SegmentedStep::Probe,
        },
        SegmentedEvent::Length(Some(n)) => SegmentedStep::Download(n),
        SegmentedEvent::Length(None) => SegmentedStep::Probe,
        SegmentedEvent::Probed(Some(SegmentProbe::Supported(n))) => if n < 2 {
            SegmentedStep::GiveUp(Some(true))
        } else {
            SegmentedStep::Download(n)
        },
        SegmentedEvent::Probed(Some(SegmentProbe::Unsupported)) => SegmentedStep::GiveUp(Some(false)),
        SegmentedEvent::Probed(None) => SegmentedStep::GiveUp(cached),
    }
}

/// Decides the next step of a segmented download.
pub fn segmented_next(cached: Option<bool>, event: &SegmentedEvent) -> (r: SegmentedStep)
    ensures
        r == segmented_step_spec(cached, *event),
{
    match event {
        SegmentedEvent::Start => match cached {
            Some(false) => SegmentedStep::GiveUp(Some(false)),
            Some(true) => SegmentedStep::AskLength,
            None => SegmentedStep::Probe,
        },
        SegmentedEvent::Length(Some(n)) => SegmentedStep::Download(*n),
        SegmentedEvent::Length(None) => SegmentedStep::Probe,
        SegmentedEvent::Probed(Some(SegmentProbe::Supported(n))) => if *n < 2 {
            SegmentedStep::GiveUp(Some(true))
        } else {
            SegmentedStep::Download(*n)
        },
        SegmentedEvent::Probed(Some(SegmentProbe::Unsupported)) => SegmentedStep::GiveUp(Some(false)),
        SegmentedEvent::Probed(None) => SegmentedStep::GiveUp(cached),
    }
}

/// How a segmented download ended: whether it succeeded, and what is known of range
/// support afterwards. Ranges were found to work before the download started, so
/// that stays known unless the error shows the server refusing them.
pub fn segmented_outcome(error: Option<&str>) -> (r: (bool, Option<bool>))
    ensures
        match error {
            None => r == (true, Some(true)),
            Some(m) => r == (false, if refuses_ranges(m@) { Some(false) } else { Some(true) }),
        },
{
    match error {
        None => (true, Some(true)),
        Some(m) => match segmented_support_from_error(m) {
            Some(b) => (false, Some(b)),
            None => (false, Some(true)),
        },
    }
}

} // verus!
