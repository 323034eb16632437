use pojde_rs::update::{bin_name, bin_suffix, REPO_OWNER};

#[test]
fn suffix_is_os_and_arch() {
    assert_eq!(bin_suffix("linux", "x86_64"), "linux-x86_64");
    assert_eq!(bin_suffix("macos", "aarch64"), "macos-aarch64");
}

#[test]
fn suffix_for_windows_is_special() {
    assert_eq!(bin_suffix("windows", "x86_64"), "exe.windows-x86_64.exe");
    assert_eq!(bin_suffix("Windows", "x86_64"), "Windows-x86_64");
}

#[test]
fn bin_name_puts_the_suffix_after_the_tool() {
    assert_eq!(bin_name("pojdectl-rs", "linux", "x86_64"), "pojdectl-rslinux-x86_64");
    assert_eq!(
        bin_name("pojdectl-rs", "windows", "x86_64"),
        "pojdectl-rsexe.windows-x86_64.exe"
    );
}

#[test]
fn releases_are_published_by_the_owner() {
    assert_eq!(REPO_OWNER, "pojntfx");
}
