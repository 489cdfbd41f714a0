use bisector::dates::GitDate;
use bisector::toolchains::{
    ci_url_prefix, component_file_name, components_list, nightly_manifest_url, removal_allowed,
    std_file_name, std_targets_for, strip_archive_entry, tarball_urls, InstallOutcome,
    InstallSlot, SlotState, Toolchain, ToolchainSpec,
};

fn d(y: u16, m: u8, day: u8) -> GitDate {
    GitDate::from_ymd_opt(y, m, day).unwrap()
}

fn host() -> String {
    "x86_64-unknown-linux-gnu".to_string()
}

#[test]
fn nightly_registration_name() {
    let t = Toolchain {
        spec: ToolchainSpec::Nightly { date: d(2019, 1, 1) },
        host: host(),
        std_targets: std_targets_for(&host(), &host()),
    };
    let name = t.rustup_name();
    assert_eq!(name, "bisector-nightly-2019-01-01-x86_64-unknown-linux-gnu");
    assert!(name.starts_with("bisector-"));
}

#[test]
fn ci_registration_name() {
    let sha = "6a1c0637ce44aeea6c60527f4c0e7fb33f2bcd0d";
    let t = Toolchain {
        spec: ToolchainSpec::Ci { commit: sha.to_string(), alt: true },
        host: host(),
        std_targets: std_targets_for(&host(), &host()),
    };
    let name = t.rustup_name();
    assert_eq!(
        name,
        "bisector-ci-6a1c0637ce44aeea6c60527f4c0e7fb33f2bcd0d-alt-x86_64-unknown-linux-gnu"
    );
    assert!(name.starts_with("bisector-"));
    let plain = Toolchain {
        spec: ToolchainSpec::Ci { commit: sha.to_string(), alt: false },
        host: host(),
        std_targets: std_targets_for(&host(), &host()),
    };
    assert_eq!(
        plain.rustup_name(),
        "bisector-ci-6a1c0637ce44aeea6c60527f4c0e7fb33f2bcd0d-x86_64-unknown-linux-gnu"
    );
}

#[test]
fn display_names() {
    let n = ToolchainSpec::Nightly { date: d(2019, 1, 1) };
    assert_eq!(n.display_name(), "nightly-2019-01-01");
    let c = ToolchainSpec::Ci { commit: "abcd".to_string(), alt: true };
    assert_eq!(c.display_name(), "abcd-alt");
    assert_eq!(n.location(), "2019-01-01");
    assert_eq!(c.location(), "abcd");
}

#[test]
fn removal_guard_refuses_foreign_names() {
    assert!(removal_allowed("bisector-nightly-2019-01-01-x86_64-unknown-linux-gnu"));
    assert!(removal_allowed("bisector-ci-abcd-x86_64-unknown-linux-gnu"));
    assert!(!removal_allowed("stable-x86_64-unknown-linux-gnu"));
    assert!(!removal_allowed("nightly"));
    assert!(!removal_allowed(""));
}

#[test]
fn artifact_addresses() {
    let (xz, gz) = tarball_urls(
        "https://static.rust-lang.org/dist",
        "2019-01-01",
        "rustc-nightly-x86_64-unknown-linux-gnu",
    );
    assert_eq!(
        xz,
        "https://static.rust-lang.org/dist/2019-01-01/rustc-nightly-x86_64-unknown-linux-gnu.tar.xz"
    );
    assert_eq!(
        gz,
        "https://static.rust-lang.org/dist/2019-01-01/rustc-nightly-x86_64-unknown-linux-gnu.tar.gz"
    );
    assert_eq!(
        nightly_manifest_url(&d(2022, 5, 4)),
        "https://static.rust-lang.org/dist/2022-05-04/channel-rust-nightly-git-commit-hash.txt"
    );
    assert_eq!(
        ci_url_prefix(false),
        "https://s3-us-west-1.amazonaws.com/rust-lang-ci2/rustc-builds"
    );
    assert_eq!(
        ci_url_prefix(true),
        "https://s3-us-west-1.amazonaws.com/rust-lang-ci2/rustc-builds-alt"
    );
}

#[test]
fn component_names() {
    assert_eq!(component_file_name("rust-src", "ignored"), "rust-src-nightly");
    assert_eq!(
        component_file_name("rustc", "x86_64-unknown-linux-gnu"),
        "rustc-nightly-x86_64-unknown-linux-gnu"
    );
    assert_eq!(
        std_file_name("aarch64-unknown-linux-gnu"),
        "rust-std-nightly-aarch64-unknown-linux-gnu"
    );
}

#[test]
fn components_follow_flags() {
    let extras = vec!["clippy".to_string()];
    let all = components_list(false, true, true, &extras);
    assert_eq!(
        all,
        vec!["rustc", "cargo", "rustc-dev", "llvm-tools", "rust-src", "clippy"]
    );
    let minimal = components_list(true, false, false, &Vec::new());
    assert_eq!(minimal, vec!["rustc"]);
}

#[test]
fn std_targets_sorted_and_deduplicated() {
    let h = host();
    let same = std_targets_for(&h, &h);
    assert_eq!(same, vec![h.clone()]);
    let other = "aarch64-apple-darwin".to_string();
    assert_eq!(std_targets_for(&h, &other), vec![other.clone(), h.clone()]);
    assert_eq!(std_targets_for(&other, &h), vec![other.clone(), h.clone()]);
}

#[test]
fn archive_entries_lose_their_outer_components() {
    assert_eq!(
        strip_archive_entry("rustc-nightly-x86_64-unknown-linux-gnu/rustc/bin/rustc"),
        Some("bin/rustc".to_string())
    );
    assert_eq!(
        strip_archive_entry("rustc-nightly-x86_64-unknown-linux-gnu/rustc/"),
        None
    );
    assert_eq!(strip_archive_entry("rustc-nightly-x86_64-unknown-linux-gnu"), None);
    assert_eq!(strip_archive_entry("a/license"), None);
    assert_eq!(strip_archive_entry("a/b/c"), Some("c".to_string()));
}

#[test]
fn install_then_remove_returns_slot_to_absent() {
    let mut slot = InstallSlot { state: SlotState::Absent };
    assert_eq!(slot.install_step(false, true), InstallOutcome::Installed);
    assert_eq!(slot.state, SlotState::Present);
    // a second install into the filled slot is a no-op
    assert_eq!(slot.install_step(false, true), InstallOutcome::AlreadyPresent);
    assert_eq!(slot.state, SlotState::Present);
    slot.remove_step();
    assert_eq!(slot.state, SlotState::Absent);
    // a failed fetch leaves the slot empty
    assert_eq!(slot.install_step(false, false), InstallOutcome::Failed);
    assert_eq!(slot.state, SlotState::Absent);
    // a forced install clears the slot before fetching
    assert_eq!(slot.install_step(false, true), InstallOutcome::Installed);
    assert_eq!(slot.install_step(true, true), InstallOutcome::Installed);
    assert_eq!(slot.state, SlotState::Present);
}
