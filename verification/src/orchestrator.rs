//! Driving the two-phase bisection: the backwards walk that finds a passing
//! nightly, the materialized search ranges, and the linear scan over a
//! rollup's perf builds.

use vstd::prelude::*;
use crate::bounds::Bounds;
use crate::dates::GitDate;
use crate::least_satisfying::Satisfies;
use crate::commits::Commit;
use crate::toolchains::{std_targets_for, Toolchain, ToolchainSpec};

verus! {

/// The day before which no standard-library packages were published; the
/// backwards walk never tests past it.
pub fn epoch_date() -> (r: GitDate)
    ensures
        r == (GitDate { year: 2015, month: 10, day: 20 }),
        r.wf(),
{
    GitDate { year: 2015, month: 10, day: 20 }
}

/// Steps backwards from a start date with growing stride: two days at a time
/// through the first week of distance, a week at a time up to forty-nine
/// days, a fortnight at a time beyond.
pub struct NightlyFinderIter {
    pub start_date: GitDate,
    pub current_date: GitDate,
}

impl NightlyFinderIter {
    pub open spec fn wf(self) -> bool {
        &&& self.start_date.wf()
        &&& self.current_date.wf()
        &&& self.current_date.day_index() <= self.start_date.day_index()
    }

    /// The stride taken at distance `dist` from the start.
    pub open spec fn spec_jump(dist: int) -> int {
        if dist < 7 {
            2
        } else if dist < 49 {
            7
        } else {
            14
        }
    }

    pub fn new(start_date: GitDate) -> (r: Self)
        requires
            start_date.wf(),
        ensures
            r.start_date == start_date,
            r.current_date == start_date,
            r.wf(),
    {
        NightlyFinderIter { start_date, current_date: start_date }
    }

    /// The next date to try, two days, a week or a fortnight further back;
    /// `None` only if that would leave the calendar.
    pub fn next(&mut self) -> (r: Option<GitDate>)
        requires
            old(self).wf(),
        ensures
            final(self).start_date == old(self).start_date,
            final(self).wf(),
            match r {
                Some(d) => {
                    &&& d.wf()
                    &&& d.day_index() == old(self).current_date.day_index()
                        - Self::spec_jump(
                        old(self).start_date.day_index() - old(self).current_date.day_index(),
                    )
                    &&& final(self).current_date == d
                },
                None => old(self).current_date.day_index() < Self::spec_jump(
                    old(self).start_date.day_index() - old(self).current_date.day_index(),
                ),
            },
    {
        let start_n = self.start_date.day_number();
        let cur_n = self.current_date.day_number();
        let dist = start_n - cur_n;
        let jump_length: u32 = if dist < 7 {
            2
        } else if dist < 49 {
            7
        } else {
            14
        };
        match self.current_date.sub_days(jump_length) {
            Some(d) => {
                self.current_date = d;
                Some(d)
            },
            None => None,
        }
    }
}

/// Why the backwards walk gave up.
#[derive(Clone, Copy, Debug, PartialEq, Eq, Structural)]
pub enum WalkError {
    /// The user's explicit start already reproduces the regression: the
    /// good boundary is not good.
    StartHasRegression,
    /// The user's explicit start could not be installed.
    StartNotFound,
    /// The walk reached the pre-artifact epoch without one passing nightly.
    NoPassingNightly,
}

/// What the backwards walk asks for next.
pub enum WalkStatus {
    /// Install and test the nightly of this date.
    Test(GitDate),
    /// A passing nightly was found: bisect the days between these two.
    Found { first_success: GitDate, last_failure: GitDate },
    Failed(WalkError),
}

/// What happened at the date last handed out by the walk.
#[derive(Clone, Copy, Debug, PartialEq, Eq, Structural)]
pub enum WalkEvent {
    /// The nightly installed and the test stayed at the baseline.
    TestedBaseline,
    /// The nightly installed and the test reproduced the regression.
    TestedRegressed,
    /// No artifacts were published for this date.
    NotFound,
}

/// The state of the backwards walk for a passing nightly.
pub struct NightlyWalk {
    pub nightly_date: GitDate,
    pub last_failure: GitDate,
    pub iter: NightlyFinderIter,
    pub has_start: bool,
}

impl NightlyWalk {
    pub open spec fn wf(self) -> bool {
        &&& self.nightly_date.wf()
        &&& self.last_failure.wf()
        &&& self.iter.wf()
    }

    /// Starts the walk at the end of the date range.  `has_start` records
    /// whether the user named the start explicitly, in which case a failure
    /// there is the user's error rather than a reason to walk further.
    pub fn new(nightly_date: GitDate, last_failure: GitDate, has_start: bool) -> (r: (
        Self,
        WalkStatus,
    ))
        requires
            nightly_date.wf(),
            last_failure.wf(),
        ensures
            r.0.wf(),
            r.0.nightly_date == nightly_date,
            r.0.last_failure == last_failure,
            r.0.has_start == has_start,
            match r.1 {
                WalkStatus::Test(d) => d == nightly_date && nightly_date.day_index()
                    > epoch_day_index(),
                WalkStatus::Failed(e) => e == WalkError::NoPassingNightly
                    && nightly_date.day_index() <= epoch_day_index(),
                WalkStatus::Found { .. } => false,
            },
    {
        let walk = NightlyWalk {
            nightly_date,
            last_failure,
            iter: NightlyFinderIter::new(nightly_date),
            has_start,
        };
        let status = if epoch_date().lt(&nightly_date) {
            WalkStatus::Test(nightly_date)
        } else {
            WalkStatus::Failed(WalkError::NoPassingNightly)
        };
        (walk, status)
    }

    /// Advances the walk by one observation: a baseline result ends the walk
    /// successfully; a regressed result records the date as the newest known
    /// failure and strides further back; missing artifacts slip back a
    /// single day; and either failure is fatal when the user named the start
    /// explicitly.
    pub fn step(&mut self, event: WalkEvent) -> (r: WalkStatus)
        requires
            old(self).wf(),
        ensures
            final(self).wf(),
            final(self).has_start == old(self).has_start,
            event == WalkEvent::TestedBaseline ==> r == (WalkStatus::Found {
                first_success: old(self).nightly_date,
                last_failure: old(self).last_failure,
            }),
            event == WalkEvent::TestedRegressed && old(self).has_start ==> r == WalkStatus::Failed(
                WalkError::StartHasRegression,
            ),
            event == WalkEvent::TestedRegressed && !old(self).has_start
                ==> final(self).last_failure == old(self).nightly_date && (match r {
                WalkStatus::Test(d) => d == final(self).nightly_date && d.day_index()
                    > epoch_day_index() && d.day_index() == old(self).iter.current_date.day_index()
                    - NightlyFinderIter::spec_jump(
                    old(self).iter.start_date.day_index()
                        - old(self).iter.current_date.day_index(),
                ),
                WalkStatus::Failed(e) => e == WalkError::NoPassingNightly,
                WalkStatus::Found { .. } => false,
            }),
            event == WalkEvent::NotFound && old(self).has_start ==> r == WalkStatus::Failed(
                WalkError::StartNotFound,
            ),
            event == WalkEvent::NotFound && !old(self).has_start ==> final(self).last_failure
                == old(self).last_failure && (match r {
                WalkStatus::Test(d) => d == final(self).nightly_date && d.day_index()
                    > epoch_day_index() && d.day_index() == old(self).nightly_date.day_index()
                    - 1,
                WalkStatus::Failed(e) => e == WalkError::NoPassingNightly,
                WalkStatus::Found { .. } => false,
            }),
    {
        match event {
            WalkEvent::TestedBaseline => WalkStatus::Found {
                first_success: self.nightly_date,
                last_failure: self.last_failure,
            },
            WalkEvent::TestedRegressed => {
                if self.has_start {
                    return WalkStatus::Failed(WalkError::StartHasRegression);
                }
                self.last_failure = self.nightly_date;
                match self.iter.next() {
                    Some(d) => {
                        self.nightly_date = d;
                        if epoch_date().lt(&d) {
                            WalkStatus::Test(d)
                        } else {
                            WalkStatus::Failed(WalkError::NoPassingNightly)
                        }
                    },
                    None => WalkStatus::Failed(WalkError::NoPassingNightly),
                }
            },
            WalkEvent::NotFound => {
                if self.has_start {
                    return WalkStatus::Failed(WalkError::StartNotFound);
                }
                match self.nightly_date.pred_opt() {
                    Some(d) => {
                        self.nightly_date = d;
                        if epoch_date().lt(&d) {
                            WalkStatus::Test(d)
                        } else {
                            WalkStatus::Failed(WalkError::NoPassingNightly)
                        }
                    },
                    None => WalkStatus::Failed(WalkError::NoPassingNightly),
                }
            },
        }
    }
}

/// The day index of the pre-artifact epoch.
pub open spec fn epoch_day_index() -> int {
    (GitDate { year: 2015, month: 10, day: 20 }).day_index()
}

/// One nightly toolchain per day from `start` through `end`, in order.
pub fn toolchains_between(start: GitDate, end: GitDate, host: &String, target: &String) -> (r: Vec<
    Toolchain,
>)
    requires
        start.wf(),
        end.wf(),
    ensures
        start.day_index() <= end.day_index() ==> r@.len() == end.day_index() - start.day_index()
            + 1,
        start.day_index() > end.day_index() ==> r@.len() == 0,
        forall|i: int|
            0 <= i < r@.len() ==> match (#[trigger] r@[i]).spec {
                ToolchainSpec::Nightly { date } => date.wf() && date.day_index()
                    == start.day_index() + i,
                ToolchainSpec::Ci { .. } => false,
            },
        forall|i: int| 0 <= i < r@.len() ==> (#[trigger] r@[i]).host@ == host@,
        forall|i: int|
            0 <= i < r@.len() ==> crate::text::views_of((#[trigger] r@[i]).std_targets@)
                == crate::toolchains::canonical_targets(host@, target@),
{
    let mut r: Vec<Toolchain> = Vec::new();
    let mut date = start;
    let end_n = end.day_number();
    while date.day_number() <= end_n
        invariant
            start.wf(),
            end.wf(),
            date.wf(),
            end_n == end.day_index(),
            start.day_index() <= date.day_index(),
            date.day_index() <= end.day_index() + 1 || date == start,
            r@.len() == date.day_index() - start.day_index(),
            forall|i: int|
                0 <= i < r@.len() ==> match (#[trigger] r@[i]).spec {
                    ToolchainSpec::Nightly { date: d } => d.wf() && d.day_index()
                        == start.day_index() + i,
                    ToolchainSpec::Ci { .. } => false,
                },
            forall|i: int| 0 <= i < r@.len() ==> (#[trigger] r@[i]).host@ == host@,
            forall|i: int|
                0 <= i < r@.len() ==> crate::text::views_of((#[trigger] r@[i]).std_targets@)
                    == crate::toolchains::canonical_targets(host@, target@),
        decreases end.day_index() + 1 - date.day_index(),
    {
        let t = Toolchain {
            spec: ToolchainSpec::Nightly { date },
            host: host.clone(),
            std_targets: std_targets_for(host, target),
        };
        r.push(t);
        match date.succ_opt() {
            Some(d) => {
                date = d;
            },
            None => {
                // the calendar ended exactly at `end`
                proof {
                    crate::dates::lemma_day_index_le_max(end);
                }
                return r;
            },
        }
    }
    r
}

/// One CI toolchain per admitted commit, in commit order.
pub fn ci_toolchains(commits: &Vec<Commit>, alt: bool, host: &String, target: &String) -> (r: Vec<
    Toolchain,
>)
    ensures
        r@.len() == commits@.len(),
        forall|i: int|
            0 <= i < r@.len() ==> match (#[trigger] r@[i]).spec {
                ToolchainSpec::Ci { commit, alt: a } => commit@ == commits@[i].sha@ && a == alt,
                ToolchainSpec::Nightly { .. } => false,
            },
        forall|i: int| 0 <= i < r@.len() ==> (#[trigger] r@[i]).host@ == host@,
        forall|i: int|
            0 <= i < r@.len() ==> crate::text::views_of((#[trigger] r@[i]).std_targets@)
                == crate::toolchains::canonical_targets(host@, target@),
{
    let mut r: Vec<Toolchain> = Vec::new();
    let mut i: usize = 0;
    while i < commits.len()
        invariant
            i <= commits@.len(),
            r@.len() == i,
            forall|t: int|
                0 <= t < r@.len() ==> match (#[trigger] r@[t]).spec {
                    ToolchainSpec::Ci { commit, alt: a } => commit@ == commits@[t].sha@ && a
                        == alt,
                    ToolchainSpec::Nightly { .. } => false,
                },
            forall|t: int| 0 <= t < r@.len() ==> (#[trigger] r@[t]).host@ == host@,
            forall|t: int|
                0 <= t < r@.len() ==> crate::text::views_of((#[trigger] r@[t]).std_targets@)
                    == crate::toolchains::canonical_targets(host@, target@),
        decreases commits@.len() - i,
    {
        let t = Toolchain {
            spec: ToolchainSpec::Ci { commit: commits[i].sha.clone(), alt },
            host: host.clone(),
            std_targets: std_targets_for(host, target),
        };
        r.push(t);
        i = i + 1;
    }
    r
}

/// Some verdict other than a satisfying one is known for this point.
pub open spec fn known_not_yes<F: Fn(usize) -> Satisfies>(f: F, j: usize) -> bool {
    exists|v: Satisfies| call_ensures(f, (j,), v) && v != Satisfies::Yes
}

/// Scans the points in order and stops at the first satisfying one: the
/// refinement over a rollup's few perf builds is a linear search, not a
/// bisection.
pub fn linear_search_first_yes<F: Fn(usize) -> Satisfies>(len: usize, f: F) -> (r: Option<usize>)
    requires
        forall|i: usize| i < len ==> call_requires(f, (i,)),
    ensures
        match r {
            Some(i) => i < len && call_ensures(f, (i,), Satisfies::Yes) && (forall|j: usize|
                j < i ==> known_not_yes(f, j)),
            None => forall|j: usize| j < len ==> known_not_yes(f, j),
        },
{
    let mut i: usize = 0;
    while i < len
        invariant
            i <= len,
            forall|t: usize| t < len ==> call_requires(f, (t,)),
            forall|j: usize| j < i ==> known_not_yes(f, j),
        decreases len - i,
    {
        let v = f(i);
        if matches!(v, Satisfies::Yes) {
            return Some(i);
        }
        proof {
            assert(call_ensures(f, (i,), v) && v != Satisfies::Yes);
            assert(known_not_yes(f, i));
        }
        i = i + 1;
    }
    None
}

/// The range of releases to report as searched.  A commit-level search
/// reports its own endpoints; a date-level search reports the full bounds,
/// which the backwards walk may have narrowed.
pub fn searched_range(bounds: &Bounds, first: ToolchainSpec, last: ToolchainSpec) -> (r: (
    ToolchainSpec,
    ToolchainSpec,
))
    requires
        (first is Ci && last is Ci) || !(bounds is Commits),
    ensures
        first is Ci && last is Ci ==> r == (first, last),
        !(first is Ci && last is Ci) ==> match *bounds {
            Bounds::SearchNightlyBackwards { end } => r.0 == first && r.1
                == (ToolchainSpec::Nightly { date: end }),
            Bounds::Dates { start, end } => r == (
                ToolchainSpec::Nightly { date: start },
                ToolchainSpec::Nightly { date: end },
            ),
            Bounds::Commits { .. } => false,
        },
{
    if matches!(first, ToolchainSpec::Ci { .. }) && matches!(last, ToolchainSpec::Ci { .. }) {
        (first, last)
    } else {
        match bounds {
            Bounds::SearchNightlyBackwards { end } => (first, ToolchainSpec::Nightly {
                date: *end,
            }),
            Bounds::Dates { start, end } => (
                ToolchainSpec::Nightly { date: *start },
                ToolchainSpec::Nightly { date: *end },
            ),
            Bounds::Commits { .. } => {
                // unreachable by the precondition; return the inputs
                (first, last)
            },
        }
    }
}


/// Why endpoint verification rejected the range.
#[derive(Clone, Copy, Debug, PartialEq, Eq, Structural)]
pub enum VerifyError {
    /// The start of the range already reproduces the regression.
    StartHasRegression,
    /// The end of the range does not reproduce the regression.
    EndNotRegressed,
}

/// Verifies the endpoints of a search range before bisecting: the start,
/// when it was tested, must not reproduce the regression, and the end must.
pub fn verify_endpoints(start: Option<Satisfies>, end: Satisfies) -> (r: Result<(), VerifyError>)
    ensures
        start == Some(Satisfies::Yes) ==> r == Err::<(), _>(VerifyError::StartHasRegression),
        start != Some(Satisfies::Yes) && end == Satisfies::No ==> r == Err::<(), _>(
            VerifyError::EndNotRegressed,
        ),
        start != Some(Satisfies::Yes) && end != Satisfies::No ==> r == Ok::<_, VerifyError>(()),
{
    if matches!(start, Some(Satisfies::Yes)) {
        Err(VerifyError::StartHasRegression)
    } else if matches!(end, Satisfies::No) {
        Err(VerifyError::EndNotRegressed)
    } else {
        Ok(())
    }
}

} // verus!
