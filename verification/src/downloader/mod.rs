//! Downloads: where a file goes, which manifest a delta update uses, and whether a
//! downloaded AppImage runs on this machine.
pub mod http;
pub mod progress;

use crate::config::ZsyncConfig;
use crate::text::{cat, chars_of, chars_of_string, decimal, decimal_exec, eq, lit, replace_all, replace_exec, string_of};
use vstd::prelude::*;

verus! {

/// Where a download ended up and what was learned on the way; `download_elapsed` is
/// in milliseconds.
pub struct DownloadResult {
    pub path: String,
    pub segmented_downloads: Option<bool>,
    pub progress_completion_rendered: bool,
    pub downloaded_bytes: u64,
    pub download_elapsed: Option<u64>,
}

/// The CPU architectures an ELF header can name.
#[derive(Clone, Copy, Debug, PartialEq, Eq, Structural)]
pub enum ElfMachineArch {
    X86_64,
    AArch64,
    X86,
    Arm,
    Riscv64,
    PowerPc64,
}

/// The name of an architecture, as Rust's `std::env::consts::ARCH` writes it.
pub open spec fn arch_label(a: ElfMachineArch) -> Seq<char> {
    match a {
        ElfMachineArch::X86_64 => "x86_64"@,
        ElfMachineArch::AArch64 => "aarch64"@,
        ElfMachineArch::X86 => "x86"@,
        ElfMachineArch::Arm => "arm"@,
        ElfMachineArch::Riscv64 => "riscv64"@,
        ElfMachineArch::PowerPc64 => "powerpc64"@,
    }
}

impl ElfMachineArch {
    /// The architecture's name.
    pub fn label(self) -> (r: &'static str)
        ensures
            r@ == arch_label(self),
    {
        match self {
            ElfMachineArch::X86_64 => "x86_64",
            ElfMachineArch::AArch64 => "aarch64",
            ElfMachineArch::X86 => "x86",
            ElfMachineArch::Arm => "arm",
            ElfMachineArch::Riscv64 => "riscv64",
            ElfMachineArch::PowerPc64 => "powerpc64",
        }
    }
}

/// The architecture of an ELF `e_machine` value.
pub open spec fn machine_arch(machine: int) -> Option<ElfMachineArch> {
    if machine == 3 {
        Some(ElfMachineArch::X86)
    } else if machine == 40 {
        Some(ElfMachineArch::Arm)
    } else if machine == 62 {
        Some(ElfMachineArch::X86_64)
    } else if machine == 183 {
        Some(ElfMachineArch::AArch64)
    } else if machine == 21 {
        Some(ElfMachineArch::PowerPc64)
    } else if machine == 243 {
        Some(ElfMachineArch::Riscv64)
    } else {
        None
    }
}

/// What the first bytes of a file say of its architecture.
pub open spec fn elf_arch_spec(h: Seq<u8>) -> Result<ElfMachineArch, Seq<char>> {
    if h.len() < 20 || !(h[0] == 0x7f && h[1] == 0x45 && h[2] == 0x4c && h[3] == 0x46) {
        Err("Downloaded file is not an ELF executable"@)
    } else if h[5] != 1 && h[5] != 2 {
        Err("Unsupported ELF data encoding: "@ + decimal(h[5] as nat))
    } else {
        let machine: int = if h[5] == 1 { h[18] + 256 * h[19] } else { 256 * h[18] + h[19] };
        match machine_arch(machine) {
            Some(a) => Ok(a),
            None => Err("Unsupported ELF machine type: "@ + decimal(machine as nat)),
        }
    }
}

/// Reads the architecture from the first bytes (at least 20) of an ELF file.
pub fn detect_elf_machine_arch_from_bytes(header: &[u8]) -> (r: Result<ElfMachineArch, String>)
    ensures
        match elf_arch_spec(header@) {
            Ok(a) => r == Ok::<ElfMachineArch, String>(a),
            Err(e) => r matches Err(m) && m@ == e,
        },
{
    if header.len() < 20 || !(header[0] == 0x7f && header[1] == 0x45 && header[2] == 0x4c && header[3] == 0x46) {
        return Err(String::from_str("Downloaded file is not an ELF executable"));
    }
    let enc = header[5];
    let machine: u64 = if enc == 1 {
        header[18] as u64 + 256 * (header[19] as u64)
    } else if enc == 2 {
        256 * (header[18] as u64) + header[19] as u64
    } else {
        return Err(string_of(&cat(&lit("Unsupported ELF data encoding: "), &decimal_exec(enc as u64))));
    };
    if machine == 3 {
        Ok(ElfMachineArch::X86)
    } else if machine == 40 {
        Ok(ElfMachineArch::Arm)
    } else if machine == 62 {
        Ok(ElfMachineArch::X86_64)
    } else if machine == 183 {
        Ok(ElfMachineArch::AArch64)
    } else if machine == 21 {
        Ok(ElfMachineArch::PowerPc64)
    } else if machine == 243 {
        Ok(ElfMachineArch::Riscv64)
    } else {
        Err(string_of(&cat(&lit("Unsupported ELF machine type: "), &decimal_exec(machine))))
    }
}

/// The architecture named by Rust's `ARCH` constant.
pub open spec fn host_arch_spec(arch: Seq<char>) -> Result<ElfMachineArch, Seq<char>> {
    if arch == "x86_64"@ {
        Ok(ElfMachineArch::X86_64)
    } else if arch == "aarch64"@ {
        Ok(ElfMachineArch::AArch64)
    } else if arch == "x86"@ {
        Ok(ElfMachineArch::X86)
    } else if arch == "arm"@ {
        Ok(ElfMachineArch::Arm)
    } else if arch == "riscv64"@ {
        Ok(ElfMachineArch::Riscv64)
    } else if arch == "powerpc64"@ {
        Ok(ElfMachineArch::PowerPc64)
    } else {
        Err("Unsupported host architecture for AppImage validation: "@ + arch)
    }
}

/// The host's architecture from the name Rust gives it.
pub fn host_elf_machine_arch(arch: &str) -> (r: Result<ElfMachineArch, String>)
    ensures
        match host_arch_spec(arch@) {
            Ok(a) => r == Ok::<ElfMachineArch, String>(a),
            Err(e) => r matches Err(m) && m@ == e,
        },
{
    let a = chars_of(arch);
    if eq(&a, &chars_of("x86_64")) {
        Ok(ElfMachineArch::X86_64)
    } else if eq(&a, &chars_of("aarch64")) {
        Ok(ElfMachineArch::AArch64)
    } else if eq(&a, &chars_of("x86")) {
        Ok(ElfMachineArch::X86)
    } else if eq(&a, &chars_of("arm")) {
        Ok(ElfMachineArch::Arm)
    } else if eq(&a, &chars_of("riscv64")) {
        Ok(ElfMachineArch::Riscv64)
    } else if eq(&a, &chars_of("powerpc64")) {
        Ok(ElfMachineArch::PowerPc64)
    } else {
        Err(string_of(&cat(&lit("Unsupported host architecture for AppImage validation: "), &a)))
    }
}

/// The refusal of an AppImage built for another architecture.
pub open spec fn arch_mismatch_message(detected: ElfMachineArch, host: ElfMachineArch) -> Seq<char> {
    "Downloaded AppImage targets "@ + arch_label(detected) + ", but this machine is "@ + arch_label(host)
        + ". The update was skipped and the existing AppImage was left unchanged."@
}

/// Accepts a download whose ELF header names the host's architecture, or that is not
/// an ELF file at all (`detected` is `None`).
pub fn ensure_arch_matches_host(detected: Option<ElfMachineArch>, host_arch: &str) -> (r: Result<(), String>)
    ensures
        match detected {
            None => r is Ok,
            Some(d) => match host_arch_spec(host_arch@) {
                Err(e) => r matches Err(m) && m@ == e,
                Ok(h) => if d == h { r is Ok } else { r matches Err(m) && m@ == arch_mismatch_message(d, h) },
            },
        },
{
    let d = match detected {
        None => return Ok(()),
        Some(d) => d,
    };
    let h = match host_elf_machine_arch(host_arch) {
        Ok(h) => h,
        Err(e) => return Err(e),
    };
    if d == h {
        Ok(())
    } else {
        let a = crate::text::cat3(&lit("Downloaded AppImage targets "), &lit(d.label()), &lit(", but this machine is "));
        let b = cat(&lit(h.label()), &lit(". The update was skipped and the existing AppImage was left unchanged."));
        Err(string_of(&cat(&a, &b)))
    }
}

/// The file name of a download: the naming format with `{name}` and `{version}` filled in.
pub open spec fn file_name_spec(naming_format: Seq<char>, name: Seq<char>, version: Seq<char>) -> Seq<char> {
    replace_all(replace_all(naming_format, "{name}"@, name), "{version}"@, version)
}

/// Fills in the naming format.
pub fn download_file_name(naming_format: &str, name: &str, version: &str) -> (r: String)
    ensures
        r@ == file_name_spec(naming_format@, name@, version@),
{
    proof {
        reveal_strlit("{name}");
        reveal_strlit("{version}");
    }
    let a = replace_exec(&chars_of(naming_format), &lit("{name}"), &chars_of(name));
    string_of(&replace_exec(&a, &lit("{version}"), &chars_of(version)))
}

/// The zsync manifest of a download, if delta updates are configured.
pub open spec fn zsync_url_spec(zsync: Option<ZsyncConfig>, download_url: Seq<char>) -> Option<Seq<char>> {
    match zsync {
        Some(ZsyncConfig::Enabled(true)) => Some(download_url + ".zsync"@),
        Some(ZsyncConfig::Url(u)) => Some(u@),
        _ => None,
    }
}

/// The zsync manifest URL: the download URL with `.zsync`, or the configured one.
pub fn zsync_url(zsync: &Option<ZsyncConfig>, download_url: &str) -> (r: Option<String>)
    ensures
        crate::config::opt_view(r) == zsync_url_spec(*zsync, download_url@),
{
    match zsync {
        Some(ZsyncConfig::Enabled(b)) => {
            if *b {
                Some(string_of(&cat(&chars_of(download_url), &lit(".zsync"))))
            } else {
                None
            }
        },
        Some(ZsyncConfig::Url(u)) => Some(u.clone()),
        None => None,
    }
}


/// How an AppImage is fetched.
#[derive(Clone, Copy, Debug, PartialEq, Eq, Structural)]
pub enum DownloadMethod {
    /// A zsync delta against the installed AppImage.
    Zsync,
    /// HTTP range requests in parallel.
    Segmented,
    /// One plain HTTP request.
    Plain,
}

/// The next way to fetch an update: zsync first when a manifest is configured and the
/// installed AppImage is there (`zsync_ready`), then segmented ranges when enabled,
/// then a plain request; nothing more once one succeeded (`last` is the method tried
/// last and whether it succeeded) or the plain request was made.
pub open spec fn next_download_method_spec(zsync_ready: bool, segmented: bool, last: Option<(DownloadMethod, bool)>) -> Option<DownloadMethod> {
    match last {
        None => if zsync_ready {
            Some(DownloadMethod::Zsync)
        } else if segmented {
            Some(DownloadMethod::Segmented)
        } else {
            Some(DownloadMethod::Plain)
        },
        Some((_, true)) => None,
        Some((DownloadMethod::Zsync, false)) => if segmented {
            Some(DownloadMethod::Segmented)
        } else {
            Some(DownloadMethod::Plain)
        },
        Some((DownloadMethod::Segmented, false)) => Some(DownloadMethod::Plain),
        Some((DownloadMethod::Plain, false)) => None,
    }
}

/// Chooses the next way to fetch an update; see `next_download_method_spec`.
pub fn next_download_method(zsync_ready: bool, segmented: bool, last: Option<(DownloadMethod, bool)>) -> (r: Option<DownloadMethod>)
    ensures
        r == next_download_method_spec(zsync_ready, segmented, last),
{
    match last {
        None => if zsync_ready {
            Some(DownloadMethod::Zsync)
        } else if segmented {
            Some(DownloadMethod::Segmented)
        } else {
            Some(DownloadMethod::Plain)
        },
        Some((_, true)) => None,
        Some((DownloadMethod::Zsync, false)) => if segmented {
            Some(DownloadMethod::Segmented)
        } else {
            Some(DownloadMethod::Plain)
        },
        Some((DownloadMethod::Segmented, false)) => Some(DownloadMethod::Plain),
        Some((DownloadMethod::Plain, false)) => None,
    }
}

/// Whether a file fetched by `method` may be a zip archive to unpack: a zsync delta
/// rebuilds the AppImage itself, the HTTP downloads fetch the release asset as it is.
pub fn may_be_archive(method: DownloadMethod) -> (r: bool)
    ensures
        r == (method != DownloadMethod::Zsync),
{
    match method {
        DownloadMethod::Zsync => false,
        _ => true,
    }
}


/// A failed zsync delta always falls back to an HTTP download, and a download that
/// succeeded ends the fetch.
pub proof fn law_zsync_failure_falls_back_to_http(zsync_ready: bool, segmented: bool, m: DownloadMethod)
    ensures
        next_download_method_spec(zsync_ready, segmented, Some((DownloadMethod::Zsync, false))) matches Some(n)
            && n != DownloadMethod::Zsync,
        next_download_method_spec(zsync_ready, segmented, Some((m, true))) is None,
{
}

} // verus!
