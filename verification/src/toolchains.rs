//! Toolchains: how a release is named on disk, where its artifacts live, and
//! the life cycle of one install slot.

use vstd::prelude::*;
use vstd::string::StrSliceExecFns;
use vstd::string::StringExecFns;
use crate::dates::{spec_yyyy_mm_dd, GitDate};

verus! {

pub const NIGHTLY_SERVER: &'static str = "https://static.rust-lang.org/dist";

pub const CI_SERVER: &'static str = "https://s3-us-west-1.amazonaws.com/rust-lang-ci2";

/// Which release a toolchain is.
#[derive(Clone, Debug)]
pub enum ToolchainSpec {
    /// A continuous-integration build keyed by commit; `alt` selects the
    /// alternate build profile.
    Ci { commit: String, alt: bool },
    /// A dated release in the nightly channel.
    Nightly { date: GitDate },
}

/// A release together with the platform it is installed for.
#[derive(Clone, Debug)]
pub struct Toolchain {
    pub spec: ToolchainSpec,
    pub host: String,
    pub std_targets: Vec<String>,
}

impl ToolchainSpec {
    pub open spec fn wf(self) -> bool {
        match self {
            ToolchainSpec::Nightly { date } => date.wf(),
            ToolchainSpec::Ci { .. } => true,
        }
    }

    /// The location part of an artifact address: the commit for CI builds,
    /// the formatted date for nightlies.
    pub open spec fn spec_location(self) -> Seq<char> {
        match self {
            ToolchainSpec::Ci { commit, .. } => commit@,
            ToolchainSpec::Nightly { date } => spec_yyyy_mm_dd(date),
        }
    }

    /// How the release is shown to the user.
    pub open spec fn spec_display(self) -> Seq<char> {
        match self {
            ToolchainSpec::Ci { commit, alt } => commit@ + if alt {
                "-alt"@
            } else {
                Seq::<char>::empty()
            },
            ToolchainSpec::Nightly { date } => "nightly-"@ + spec_yyyy_mm_dd(date),
        }
    }

    pub fn location(&self) -> (r: String)
        requires
            self.wf(),
        ensures
            r@ == self.spec_location(),
    {
        match self {
            ToolchainSpec::Ci { commit, .. } => commit.clone(),
            ToolchainSpec::Nightly { date } => date.format_yyyy_mm_dd(),
        }
    }

    pub fn display_name(&self) -> (r: String)
        requires
            self.wf(),
        ensures
            r@ == self.spec_display(),
    {
        match self {
            ToolchainSpec::Ci { commit, alt } => {
                let mut s = commit.clone();
                if *alt {
                    s.append("-alt");
                }
                proof {
                    reveal_strlit("-alt");
                    assert(s@ =~= self.spec_display());
                }
                s
            },
            ToolchainSpec::Nightly { date } => {
                let mut s = String::from_str("nightly-");
                s.append(date.format_yyyy_mm_dd().as_str());
                s
            },
        }
    }
}

impl Toolchain {
    pub open spec fn wf(self) -> bool {
        self.spec.wf()
    }

    /// The name under which the release is registered with the toolchain
    /// multiplexer.
    pub open spec fn spec_rustup_name(self) -> Seq<char> {
        match self.spec {
            ToolchainSpec::Ci { commit, alt } => "bisector-ci-"@ + commit@ + (if alt {
                "-alt"@
            } else {
                Seq::<char>::empty()
            }) + "-"@ + self.host@,
            ToolchainSpec::Nightly { date } => "bisector-nightly-"@ + spec_yyyy_mm_dd(date) + "-"@
                + self.host@,
        }
    }

    pub fn rustup_name(&self) -> (r: String)
        requires
            self.wf(),
        ensures
            r@ == self.spec_rustup_name(),
    {
        match &self.spec {
            ToolchainSpec::Ci { commit, alt } => {
                let mut s = String::from_str("bisector-ci-");
                s.append(commit.as_str());
                if *alt {
                    s.append("-alt");
                }
                s.append("-");
                s.append(self.host.as_str());
                proof {
                    reveal_strlit("-alt");
                    assert(s@ =~= self.spec_rustup_name());
                }
                s
            },
            ToolchainSpec::Nightly { date } => {
                let mut s = String::from_str("bisector-nightly-");
                s.append(date.format_yyyy_mm_dd().as_str());
                s.append("-");
                s.append(self.host.as_str());
                proof {
                    assert(s@ =~= self.spec_rustup_name());
                }
                s
            },
        }
    }
}

/// Law: every registration name the store produces begins with `bisector-`,
/// the prefix that marks a directory as this tool's property.
pub proof fn lemma_registration_name_prefixed(t: Toolchain)
    ensures
        "bisector-"@.is_prefix_of(t.spec_rustup_name()),
{
    reveal_strlit("bisector-");
    reveal_strlit("bisector-ci-");
    reveal_strlit("bisector-nightly-");
    match t.spec {
        ToolchainSpec::Ci { commit, alt } => {
            assert(t.spec_rustup_name().subrange(0, 9) =~= "bisector-"@);
        },
        ToolchainSpec::Nightly { date } => {
            assert(t.spec_rustup_name().subrange(0, 9) =~= "bisector-"@);
        },
    }
}

/// The guard the removal protocol applies before deleting a directory: only
/// names this tool would itself have produced may be removed.
pub fn removal_allowed(name: &str) -> (r: bool)
    ensures
        r == ("bisector-nightly"@.is_prefix_of(name@) || "bisector-ci"@.is_prefix_of(name@)),
{
    crate::text::starts_with(name, "bisector-nightly") || crate::text::starts_with(
        name,
        "bisector-ci",
    )
}

/// The two candidate addresses of one component archive: the `.xz` form that
/// is tried first, and the `.gz` form for the not-found fallback.
pub fn tarball_urls(prefix: &str, location: &str, file_name: &str) -> (r: (String, String))
    ensures
        r.0@ == prefix@ + "/"@ + location@ + "/"@ + file_name@ + ".tar.xz"@,
        r.1@ == prefix@ + "/"@ + location@ + "/"@ + file_name@ + ".tar.gz"@,
{
    let mut base = String::from_str(prefix);
    base.append("/");
    base.append(location);
    base.append("/");
    base.append(file_name);
    let mut xz = base.clone();
    xz.append(".tar.xz");
    let mut gz = base;
    gz.append(".tar.gz");
    (xz, gz)
}

/// The address of the one-line manifest naming a nightly's commit.
pub fn nightly_manifest_url(date: &GitDate) -> (r: String)
    requires
        date.wf(),
    ensures
        r@ == NIGHTLY_SERVER@ + "/"@ + spec_yyyy_mm_dd(*date)
            + "/channel-rust-nightly-git-commit-hash.txt"@,
{
    let mut s = String::from_str(NIGHTLY_SERVER);
    s.append("/");
    s.append(date.format_yyyy_mm_dd().as_str());
    s.append("/channel-rust-nightly-git-commit-hash.txt");
    s
}

/// The address prefix CI artifacts are served from; the alternate build
/// profile lives under its own prefix.
pub fn ci_url_prefix(alt: bool) -> (r: String)
    ensures
        r@ == CI_SERVER@ + "/rustc-builds"@ + if alt {
            "-alt"@
        } else {
            Seq::<char>::empty()
        },
{
    let mut s = String::from_str(CI_SERVER);
    s.append("/rustc-builds");
    if alt {
        s.append("-alt");
    }
    proof {
        reveal_strlit("-alt");
        assert(s@ =~= CI_SERVER@ + "/rustc-builds"@ + if alt {
            "-alt"@
        } else {
            Seq::<char>::empty()
        });
    }
    s
}

/// The archive file name of one host component: `rust-src` is
/// target-independent, every other component is keyed by the host triple.
pub fn component_file_name(component: &str, host: &str) -> (r: String)
    ensures
        component@ == "rust-src"@ ==> r@ == "rust-src-nightly"@,
        component@ != "rust-src"@ ==> r@ == component@ + "-nightly-"@ + host@,
{
    proof {
        reveal_strlit("rust-src");
        reveal_strlit("rust-src-nightly");
    }
    if crate::text::starts_with(component, "rust-src") && component.unicode_len() == 8 {
        proof {
            assert(component@ =~= "rust-src"@);
        }
        String::from_str("rust-src-nightly")
    } else {
        proof {
            if component@ == "rust-src"@ {
                assert("rust-src"@.is_prefix_of(component@));
            }
        }
        let mut s = String::from_str(component);
        s.append("-nightly-");
        s.append(host);
        s
    }
}

/// The archive file name of the standard library for one target.
pub fn std_file_name(target: &str) -> (r: String)
    ensures
        r@ == "rust-std-nightly-"@ + target@,
{
    let mut s = String::from_str("rust-std-nightly-");
    s.append(target);
    s
}

/// The components one install downloads, in download order: the compiler;
/// the build driver unless opted out; the compiler-development pair and the
/// source component when asked for; then the caller's extras.
pub open spec fn spec_components(
    without_cargo: bool,
    with_dev: bool,
    with_src: bool,
    extras: Seq<Seq<char>>,
) -> Seq<Seq<char>> {
    seq!["rustc"@] + (if without_cargo {
        Seq::<Seq<char>>::empty()
    } else {
        seq!["cargo"@]
    }) + (if with_dev {
        seq!["rustc-dev"@, "llvm-tools"@]
    } else {
        Seq::<Seq<char>>::empty()
    }) + (if with_src {
        seq!["rust-src"@]
    } else {
        Seq::<Seq<char>>::empty()
    }) + extras
}

pub fn components_list(
    without_cargo: bool,
    with_dev: bool,
    with_src: bool,
    extras: &Vec<String>,
) -> (r: Vec<String>)
    ensures
        r@.map_values(|s: String| s@) == spec_components(
            without_cargo,
            with_dev,
            with_src,
            extras@.map_values(|s: String| s@),
        ),
{
    let mut r: Vec<String> = Vec::new();
    r.push(String::from_str("rustc"));
    if !without_cargo {
        r.push(String::from_str("cargo"));
    }
    if with_dev {
        r.push(String::from_str("rustc-dev"));
        r.push(String::from_str("llvm-tools"));
    }
    if with_src {
        r.push(String::from_str("rust-src"));
    }
    let mut i: usize = 0;
    let ghost base = r@;
    while i < extras.len()
        invariant
            i <= extras@.len(),
            r@ == base + extras@.subrange(0, i as int),
        decreases extras@.len() - i,
    {
        r.push(extras[i].clone());
        proof {
            assert(r@ =~= base + extras@.subrange(0, i + 1));
        }
        i = i + 1;
    }
    proof {
        assert(extras@.subrange(0, extras@.len() as int) =~= extras@);
        assert(r@.map_values(|s: String| s@) =~= spec_components(
            without_cargo,
            with_dev,
            with_src,
            extras@.map_values(|s: String| s@),
        ));
    }
    r
}


/// Strict lexicographic order on text, character by character; the order the
/// standard library sorts strings in.
pub open spec fn lex_lt(a: Seq<char>, b: Seq<char>) -> bool
    decreases a.len(),
{
    if b.len() == 0 {
        false
    } else if a.len() == 0 {
        true
    } else if a[0] != b[0] {
        a[0] < b[0]
    } else {
        lex_lt(a.skip(1), b.skip(1))
    }
}

/// Whether `a` sorts strictly before `b`.
pub fn str_lt(a: &str, b: &str) -> (r: bool)
    ensures
        r == lex_lt(a@, b@),
{
    let al = a.unicode_len();
    let bl = b.unicode_len();
    let mut i: usize = 0;
    proof {
        assert(a@.skip(0) =~= a@);
        assert(b@.skip(0) =~= b@);
    }
    loop
        invariant
            i <= al,
            i <= bl,
            al == a@.len(),
            bl == b@.len(),
            lex_lt(a@, b@) == lex_lt(a@.skip(i as int), b@.skip(i as int)),
        decreases al - i,
    {
        if i >= bl {
            return false;
        }
        if i >= al {
            return true;
        }
        let ca = a.get_char(i);
        let cb = b.get_char(i);
        if ca != cb {
            proof {
                assert(a@.skip(i as int)[0] == ca);
                assert(b@.skip(i as int)[0] == cb);
            }
            return ca < cb;
        }
        proof {
            assert(a@.skip(i as int).skip(1) =~= a@.skip(i + 1));
            assert(b@.skip(i as int).skip(1) =~= b@.skip(i + 1));
            assert(a@.skip(i as int)[0] == b@.skip(i as int)[0]);
        }
        i = i + 1;
    }
}

/// The one or two standard-library targets a platform pair calls for:
/// deduplicated, in lexicographic order.
pub open spec fn canonical_targets(host: Seq<char>, target: Seq<char>) -> Seq<Seq<char>> {
    if host == target {
        seq![host]
    } else if lex_lt(host, target) {
        seq![host, target]
    } else {
        seq![target, host]
    }
}

proof fn lemma_lex_lt_total(a: Seq<char>, b: Seq<char>)
    requires
        a != b,
    ensures
        lex_lt(a, b) <==> !lex_lt(b, a),
    decreases a.len(),
{
    if b.len() == 0 {
        if a.len() == 0 {
            assert(a =~= b);
        }
    } else if a.len() == 0 {
    } else if a[0] != b[0] {
    } else {
        assert(a.skip(1) != b.skip(1)) by {
            if a.skip(1) == b.skip(1) {
                assert(a =~= b) by {
                    assert(a.skip(1).len() == a.len() - 1);
                    assert(b.skip(1).len() == b.len() - 1);
                    assert(a.len() == b.len());
                    assert forall|i: int| 0 <= i < a.len() implies a[i] == b[i] by {
                        if i > 0 {
                            assert(a[i] == a.skip(1)[i - 1]);
                            assert(b[i] == b.skip(1)[i - 1]);
                        }
                    }
                }
            }
        }
        lemma_lex_lt_total(a.skip(1), b.skip(1));
    }
}

/// Law: the canonical target list does not depend on the order in which the
/// two platforms are named, so equal toolchains always carry identical
/// registration names.
pub proof fn lemma_targets_order_blind(h: Seq<char>, t: Seq<char>)
    ensures
        canonical_targets(h, t) == canonical_targets(t, h),
{
    if h != t {
        lemma_lex_lt_total(h, t);
    }
}

/// The standard-library targets of one toolchain: the host and the requested
/// target, deduplicated and sorted so that equal platform pairs always give
/// the same registration name.
pub fn std_targets_for(host: &String, target: &String) -> (r: Vec<String>)
    ensures
        crate::text::views_of(r@) == canonical_targets(host@, target@),
{
    let mut r: Vec<String> = Vec::new();
    if host.eq(target) {
        r.push(host.clone());
        proof {
            assert(crate::text::views_of(r@) =~= seq![host@]);
        }
    } else if str_lt(host.as_str(), target.as_str()) {
        r.push(host.clone());
        r.push(target.clone());
        proof {
            assert(crate::text::views_of(r@) =~= seq![host@, target@]);
        }
    } else {
        r.push(target.clone());
        r.push(host.clone());
        proof {
            assert(crate::text::views_of(r@) =~= seq![target@, host@]);
        }
    }
    r
}

/// What one install slot holds.
#[derive(Clone, Copy, Debug, PartialEq, Eq, Structural)]
pub enum SlotState {
    Absent,
    Present,
}

/// How one install attempt ended.
#[derive(Clone, Copy, Debug, PartialEq, Eq, Structural)]
pub enum InstallOutcome {
    /// The target directory already existed; nothing was done.
    AlreadyPresent,
    /// The artifacts were unpacked into scratch space and the scratch
    /// directory was renamed into place.
    Installed,
    /// A download or unpack step failed; the scratch directory is discarded
    /// and the slot is left empty.
    Failed,
}

/// The install protocol on one slot: a forced install clears the slot first,
/// an occupied slot is kept as it is, and otherwise the slot fills exactly
/// when every fetch succeeds.
pub open spec fn spec_install(s: SlotState, force: bool, fetch_ok: bool) -> (SlotState,
    InstallOutcome) {
    let s0 = if force {
        SlotState::Absent
    } else {
        s
    };
    if s0 == SlotState::Present {
        (SlotState::Present, InstallOutcome::AlreadyPresent)
    } else if fetch_ok {
        (SlotState::Present, InstallOutcome::Installed)
    } else {
        (SlotState::Absent, InstallOutcome::Failed)
    }
}

/// One toolchain install slot: the directory the registration name denotes.
pub struct InstallSlot {
    pub state: SlotState,
}

impl InstallSlot {
    /// Runs the install protocol; `fetch_ok` reports whether the caller's
    /// downloads and unpacking all succeeded.
    pub fn install_step(&mut self, force: bool, fetch_ok: bool) -> (r: InstallOutcome)
        ensures
            (final(self).state, r) == spec_install(old(self).state, force, fetch_ok),
    {
        if !force && matches!(self.state, SlotState::Present) {
            return InstallOutcome::AlreadyPresent;
        }
        if fetch_ok {
            self.state = SlotState::Present;
            InstallOutcome::Installed
        } else {
            self.state = SlotState::Absent;
            InstallOutcome::Failed
        }
    }

    /// Removes whatever the slot holds.
    pub fn remove_step(&mut self)
        ensures
            final(self).state == SlotState::Absent,
    {
        self.state = SlotState::Absent;
    }
}

/// Law: install followed by remove returns the slot to absent; an install
/// that filled the slot makes the next install a no-op; and installing into
/// an absent slot succeeds exactly when the fetches do.
pub proof fn lemma_slot_roundtrip(s: SlotState, force: bool, fetch_ok: bool)
    ensures
        fetch_ok ==> spec_install(s, force, fetch_ok).0 == SlotState::Present,
        fetch_ok ==> spec_install(spec_install(s, force, fetch_ok).0, false, fetch_ok) == (
            SlotState::Present,
            InstallOutcome::AlreadyPresent,
        ),
        spec_install(SlotState::Absent, force, true) == (
            SlotState::Present,
            InstallOutcome::Installed,
        ),
        !fetch_ok && (force || s == SlotState::Absent) ==> spec_install(s, force, fetch_ok) == (
            SlotState::Absent,
            InstallOutcome::Failed,
        ),
{
}

/// What remains of an archive entry path once the outer two path components
/// are dropped; `None` for entries at or above that level, which the install
/// skips.
pub open spec fn spec_strip_two(s: Seq<char>) -> Option<Seq<char>> {
    let i1 = crate::text::find_from(s, '/', 0);
    if i1 < 0 {
        None
    } else {
        let i2 = crate::text::find_from(s, '/', i1 + 1);
        if i2 < 0 {
            None
        } else if i2 + 1 < s.len() {
            Some(s.subrange(i2 + 1, s.len() as int))
        } else {
            None
        }
    }
}

/// The destination-relative path of one archive entry.  Archive entries are
/// laid out `component-nightly-host/component/...`; the two outer components
/// are stripped and whatever lies at or above that level is skipped.
pub fn strip_archive_entry(path: &str) -> (r: Option<String>)
    ensures
        match r {
            Some(p) => spec_strip_two(path@) == Some(p@),
            None => spec_strip_two(path@) is None,
        },
{
    let n = path.unicode_len();
    match crate::text::find_char_from(path, '/', 0) {
        None => None,
        Some(i1) => match crate::text::find_char_from(path, '/', i1 + 1) {
            None => None,
            Some(i2) => {
                if i2 + 1 < n {
                    let rest = path.substring_char(i2 + 1, n);
                    Some(rest.to_owned())
                } else {
                    None
                }
            },
        },
    }
}

/// Relies on rustc_version's `version_meta`: asks the default toolchain for
/// its version; yields its commit date text only when that toolchain is a
/// nightly.
#[verifier::external_body]
fn rustc_nightly_commit_date() -> (r: Option<String>) {
    rustc_version::version_meta().ok().filter(|v| v.channel == rustc_version::Channel::Nightly)
        .and_then(|v| v.commit_date)
}

impl Toolchain {
    /// The date of the default toolchain, when it is a nightly.  The
    /// toolchain reports the day before its release date, so one day is
    /// added back.
    pub fn default_nightly() -> (r: Option<GitDate>)
        ensures
            match r {
                Some(d) => d.wf(),
                None => true,
            },
    {
        match rustc_nightly_commit_date() {
            Some(text) => match crate::dates::parse_to_utc_date(text.as_str()) {
                Some(d) => d.succ_opt(),
                None => None,
            },
            None => None,
        }
    }

    /// Whether this toolchain is the nightly currently installed as the
    /// default, in which case installing is a matter of linking to it.
    pub fn is_current_nightly(&self) -> (r: bool)
        ensures
            r ==> self.spec is Nightly,
    {
        if let ToolchainSpec::Nightly { date } = &self.spec {
            if let Some(default_date) = Self::default_nightly() {
                return default_date == *date;
            }
        }
        false
    }
}

} // verus!
