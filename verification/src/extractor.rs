//! Choosing the application file inside a downloaded zip archive, from what the
//! archive lists: each entry's name, whether it is a file, and its first bytes.
use crate::resolvers::patterns::{glob_match, glob_pattern_valid, GlobMatcher};
use crate::text::{cat, chars_of, chars_of_string, ends_with, join_strings, joined, lit, string_of};
use vstd::prelude::*;

verus! {

/// One entry of a zip archive.
pub struct ZipEntrySummary {
    pub name: String,
    pub is_file: bool,
    /// The first four bytes of the entry, when they could be read.
    pub header: Option<Vec<u8>>,
}

/// An entry as plain values: name, whether it is a file, first bytes.
pub type ZipEntryView = (Seq<char>, bool, Option<Seq<u8>>);

pub open spec fn zip_entry_view(e: ZipEntrySummary) -> ZipEntryView {
    (e.name@, e.is_file, match e.header { Some(h) => Some(h@), None => None })
}

pub open spec fn zip_entries_view(entries: Seq<ZipEntrySummary>) -> Seq<ZipEntryView> {
    Seq::new(entries.len(), |i: int| zip_entry_view(entries[i]))
}

/// The four bytes that open an ELF file.
pub open spec fn elf_magic() -> Seq<u8> {
    seq![0x7fu8, 0x45u8, 0x4cu8, 0x46u8]
}

/// What the archive entry must be to be chosen, by rule.
pub enum ZipRule {
    /// A file whose name the glob matches.
    Pattern(Seq<char>),
    /// A file whose name ends in `.AppImage`.
    AppImageName,
    /// A file that starts like an ELF executable.
    ElfHeader,
}

pub open spec fn zip_rule_holds(rule: ZipRule, e: ZipEntryView) -> bool {
    e.1 && match rule {
        ZipRule::Pattern(p) => glob_match(p, e.0),
        ZipRule::AppImageName => crate::text::is_suffix(".AppImage"@, e.0),
        ZipRule::ElfHeader => e.2 == Some(elf_magic()),
    }
}

/// `r` is the first entry that meets `rule`, or `None` when none does.
pub open spec fn first_meeting(entries: Seq<ZipEntryView>, rule: ZipRule, r: Option<usize>) -> bool {
    match r {
        Some(i) => i < entries.len() && zip_rule_holds(rule, entries[i as int])
            && forall|j: int| 0 <= j < i ==> !zip_rule_holds(rule, #[trigger] entries[j]),
        None => forall|j: int| 0 <= j < entries.len() ==> !zip_rule_holds(rule, #[trigger] entries[j]),
    }
}

/// Why no entry was chosen.
pub enum ZipSelectError {
    /// The `inner_asset_match` glob does not compile; the crate's message.
    InvalidPattern(String),
    /// No entry meets the rules.
    NoSuitableAsset,
}

fn is_elf_header(h: &Option<Vec<u8>>) -> (r: bool)
    ensures
        r == (match h { Some(v) => Some(v@), None => None::<Seq<u8>> } == Some(elf_magic())),
{
    match h {
        Some(v) => {
            let r = v.len() == 4 && v[0] == 0x7f && v[1] == 0x45 && v[2] == 0x4c && v[3] == 0x46;
            if r {
                assert(v@ =~= elf_magic());
            }
            r
        },
        None => false,
    }
}

fn meets(entry: &ZipEntrySummary, pattern: Option<&GlobMatcher>, appimage_name: bool) -> (r: bool)
    ensures
        r == zip_rule_holds(
            match pattern { Some(m) => ZipRule::Pattern(m.source()), None => if appimage_name { ZipRule::AppImageName } else { ZipRule::ElfHeader } },
            zip_entry_view(*entry),
        ),
{
    if !entry.is_file {
        return false;
    }
    match pattern {
        Some(m) => m.matches(entry.name.as_str()),
        None => if appimage_name {
            proof { reveal_strlit(".AppImage"); }
            ends_with(&chars_of_string(&entry.name), &lit(".AppImage"))
        } else {
            is_elf_header(&entry.header)
        },
    }
}

fn first_entry(entries: &[ZipEntrySummary], pattern: Option<&GlobMatcher>, appimage_name: bool) -> (r: Option<usize>)
    ensures
        first_meeting(
            zip_entries_view(entries@),
            match pattern { Some(m) => ZipRule::Pattern(m.source()), None => if appimage_name { ZipRule::AppImageName } else { ZipRule::ElfHeader } },
            r,
        ),
{
    let ghost rule = match pattern { Some(m) => ZipRule::Pattern(m.source()), None => if appimage_name { ZipRule::AppImageName } else { ZipRule::ElfHeader } };
    let ghost all = zip_entries_view(entries@);
    let mut i: usize = 0;
    while i < entries.len()
        invariant
            i <= entries.len(),
            all == zip_entries_view(entries@),
            rule == (match pattern { Some(m) => ZipRule::Pattern(m.source()), None => if appimage_name { ZipRule::AppImageName } else { ZipRule::ElfHeader } }),
            forall|j: int| 0 <= j < i ==> !zip_rule_holds(rule, #[trigger] all[j]),
        decreases entries.len() - i,
    {
        if meets(&entries[i], pattern, appimage_name) {
            return Some(i);
        }
        i = i + 1;
    }
    None
}

/// Chooses the entry to extract. With an `inner_asset_match` glob, the first file
/// whose name it matches; without one, the first file named `*.AppImage`, else the
/// first file that starts like an ELF executable.
pub fn choose_zip_entry(entries: &[ZipEntrySummary], inner_asset_match: Option<&str>) -> (r: Result<usize, ZipSelectError>)
    ensures
        match inner_asset_match {
            Some(p) => {
                &&& (r matches Err(ZipSelectError::InvalidPattern(_))) <==> !glob_pattern_valid(p@)
                &&& glob_pattern_valid(p@) ==> first_meeting(zip_entries_view(entries@), ZipRule::Pattern(p@),
                    match r { Ok(i) => Some(i), Err(_) => None })
            },
            None => {
                &&& !(r matches Err(ZipSelectError::InvalidPattern(_)))
                &&& match r {
                    Ok(i) => first_meeting(zip_entries_view(entries@), ZipRule::AppImageName, Some(i))
                        || (first_meeting(zip_entries_view(entries@), ZipRule::AppImageName, None)
                            && first_meeting(zip_entries_view(entries@), ZipRule::ElfHeader, Some(i))),
                    Err(_) => first_meeting(zip_entries_view(entries@), ZipRule::AppImageName, None)
                        && first_meeting(zip_entries_view(entries@), ZipRule::ElfHeader, None),
                }
            },
        },
{
    match inner_asset_match {
        Some(p) => match GlobMatcher::new(p) {
            Ok(m) => match first_entry(entries, Some(&m), false) {
                Some(i) => Ok(i),
                None => Err(ZipSelectError::NoSuitableAsset),
            },
            Err(e) => Err(ZipSelectError::InvalidPattern(e)),
        },
        None => match first_entry(entries, None, true) {
            Some(i) => Ok(i),
            None => match first_entry(entries, None, false) {
                Some(i) => Ok(i),
                None => Err(ZipSelectError::NoSuitableAsset),
            },
        },
    }
}

/// The message when no entry fits: the archive as shown and the names of all its
/// entries.
pub fn missing_zip_asset_message(zip_display: &str, names: &[String]) -> (r: String)
    ensures
        r@ == "Could not find a suitable asset in zip "@ + zip_display@ + ". Available files: "@
            + joined(crate::config::strings_view(names@), ", "@),
{
    let head = cat(&cat(&lit("Could not find a suitable asset in zip "), &chars_of(zip_display)), &lit(". Available files: "));
    string_of(&cat(&head, &join_strings(names, &lit(", "))))
}


/// The four bytes that open a zip archive (`PK\x03\x04`).
pub open spec fn zip_magic() -> Seq<u8> {
    seq![0x50u8, 0x4bu8, 0x03u8, 0x04u8]
}

/// Whether the first bytes of a download, as read, open a zip archive.
pub fn is_zip_magic(header: &[u8]) -> (r: bool)
    ensures
        r == (header@ == zip_magic()),
{
    let r = header.len() == 4 && header[0] == 0x50 && header[1] == 0x4b && header[2] == 0x03 && header[3] == 0x04;
    if r {
        assert(header@ =~= zip_magic());
    }
    r
}

} // verus!
