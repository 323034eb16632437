//! How the released builds of the tool are named, so that an updater can pick
//! the one that fits the machine.

use vstd::prelude::*;
use crate::text::equal;

verus! {

/// The account that publishes the releases.
pub const REPO_OWNER: &'static str = "pojntfx";

/// The end of the name of the build for an operating system and a processor:
/// `os-arch`, and for Windows `exe.windows-arch.exe`.
pub open spec fn bin_suffix_of(os: Seq<char>, arch: Seq<char>) -> Seq<char> {
    if os == "windows"@ {
        "exe.windows-"@ + arch + ".exe"@
    } else {
        os + "-"@ + arch
    }
}

/// The end of the name of the build for an operating system and a processor.
pub fn bin_suffix(os: &str, arch: &str) -> (suffix: String)
    ensures
        suffix@ == bin_suffix_of(os@, arch@),
{
    if equal(os, "windows") {
        let mut suffix = String::from_str("exe.windows-");
        suffix.append(arch);
        suffix.append(".exe");
        suffix
    } else {
        let mut suffix = String::from_str(os);
        suffix.append("-");
        suffix.append(arch);
        suffix
    }
}

/// The name of the build of the tool called `name` for an operating system
/// and a processor: the tool's name and, right after it, the suffix.
pub fn bin_name(name: &str, os: &str, arch: &str) -> (bin: String)
    ensures
        bin@ == name@ + bin_suffix_of(os@, arch@),
{
    let mut bin = String::from_str(name);
    bin.append(bin_suffix(os, arch).as_str());
    bin
}

} // verus!
