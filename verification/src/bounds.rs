//! Bisection boundaries: how the two user-supplied endpoints are normalized
//! into a concrete search domain of dates or commits.

use vstd::prelude::*;
use vstd::string::StringExecFns;
use crate::dates::{spec_parse_ymd, spec_yyyy_mm_dd, GitDate};
use crate::text::contains_char;

verus! {

/// The oldest commit for which continuous-integration artifacts were ever
/// published; the default start when only an end commit is given.
pub const EPOCH_COMMIT: &'static str = "927c55d86b0be44337f37cf5b0a76fb8ba86e06c";

/// A bisection boundary as the user wrote it.
pub enum Bound {
    Commit(String),
    Date(GitDate),
}

/// The starting bisection bounds.
pub enum Bounds {
    /// Search backwards from the given date for a start where the regression
    /// does not occur.
    SearchNightlyBackwards { end: GitDate },
    /// Search between two commits.
    Commits { start: String, end: String },
    /// Search between two dates.
    Dates { start: GitDate, end: GitDate },
}

/// What bound resolution decided; the variants other than `Done` name the one
/// outside value the caller must supply to finish.
pub enum BoundsRequest {
    /// Find the installed nightly's date, or failing that the newest
    /// nightly's; it becomes the end of a backwards search.
    NeedInstalledOrLatest,
    /// Fetch the newest nightly's date, then finish with `resolve_dates`.
    NeedLatestEnd { start: GitDate },
    /// Look up the nightly commit of each date; they become a commit range.
    NeedShas { start: GitDate, end: GitDate },
    Done(Bounds),
}

/// A rejected pair of bounds.
pub enum BoundError {
    StartInFuture { start: GitDate, today: GitDate },
    EndInFuture { end: GitDate, today: GitDate },
    EndBeforeStart { start: GitDate, end: GitDate },
    MixedBounds { start: Bound, end: Bound },
    ByCommitNeedsStart,
}

/// How a bound is written out in a diagnostic: the date in `YYYY-MM-DD`
/// notation, the commit text verbatim.
pub open spec fn spec_bound_text(b: Bound) -> Seq<char> {
    match b {
        Bound::Commit(c) => c@,
        Bound::Date(d) => spec_yyyy_mm_dd(d),
    }
}

fn bound_text(b: &Bound) -> (r: String)
    requires
        b.wf(),
    ensures
        r@ == spec_bound_text(*b),
{
    match b {
        Bound::Commit(c) => c.clone(),
        Bound::Date(d) => d.format_yyyy_mm_dd(),
    }
}

impl Bound {
    /// Reads a boundary: a date when it is written `YYYY-MM-DD`, otherwise a
    /// commit identifier.
    pub fn from_str(s: &str) -> (r: Bound)
        ensures
            match spec_parse_ymd(s@) {
                Some(d) => r == Bound::Date(d),
                None => match r {
                    Bound::Commit(c) => c@ == s@,
                    Bound::Date(_) => false,
                },
            },
    {
        match crate::dates::parse_to_utc_date(s) {
            Some(d) => Bound::Date(d),
            None => Bound::Commit(String::from_str(s)),
        }
    }

    pub open spec fn wf(self) -> bool {
        match self {
            Bound::Date(d) => d.wf(),
            Bound::Commit(_) => true,
        }
    }
}

pub open spec fn opt_bound_wf(b: Option<Bound>) -> bool {
    match b {
        Some(bb) => bb.wf(),
        None => true,
    }
}

/// A release-tag-shaped identifier: a commit bound whose text holds a dot.
pub open spec fn spec_is_tag(b: Option<Bound>) -> bool {
    match b {
        Some(Bound::Commit(c)) => c@.contains('.'),
        _ => false,
    }
}

/// A bound that can take part in a date-domain search: absent, a date, or a
/// tag that can be resolved to a date.
pub open spec fn spec_is_datelike(b: Option<Bound>) -> bool {
    match b {
        None => true,
        Some(Bound::Date(_)) => true,
        _ => spec_is_tag(b),
    }
}

/// The tag bound replaced by its resolved date; other bounds pass through.
pub open spec fn spec_tag_applied(b: Option<Bound>, tag_date: Option<GitDate>) -> Option<Bound> {
    if spec_is_tag(b) {
        match tag_date {
            Some(d) => Some(Bound::Date(d)),
            None => b,
        }
    } else {
        b
    }
}

/// Whether this bound is a release-tag-shaped commit identifier.
pub fn is_tag(b: &Option<Bound>) -> (r: bool)
    ensures
        r == spec_is_tag(*b),
{
    match b {
        Some(Bound::Commit(c)) => contains_char(c.as_str(), '.'),
        _ => false,
    }
}

/// Whether this bound can take part in a date-domain search.
pub fn is_datelike(b: &Option<Bound>) -> (r: bool)
    ensures
        r == spec_is_datelike(*b),
{
    match b {
        None => true,
        Some(Bound::Date(_)) => true,
        _ => is_tag(b),
    }
}

fn apply_tag_date(b: Option<Bound>, tag_date: Option<GitDate>) -> (r: Option<Bound>)
    ensures
        r == spec_tag_applied(b, tag_date),
{
    if is_tag(&b) {
        match tag_date {
            Some(d) => Some(Bound::Date(d)),
            None => b,
        }
    } else {
        b
    }
}

/// Replaces tag-shaped bounds by the dates their merge commits carry, so that
/// versions whose artifacts have aged out can still be bisected by date.
/// A tag is only translated when both bounds live in the date domain: an
/// explicit commit on either side keeps both sides in the commit domain.
/// `start_tag_date` and `end_tag_date` are the resolved dates the caller
/// looked up for whichever sides are tags.
pub fn translate_tags(
    start: Option<Bound>,
    end: Option<Bound>,
    start_tag_date: Option<GitDate>,
    end_tag_date: Option<GitDate>,
) -> (r: (Option<Bound>, Option<Bound>))
    ensures
        spec_is_datelike(start) && spec_is_datelike(end) ==> r == (
            spec_tag_applied(start, start_tag_date),
            spec_tag_applied(end, end_tag_date),
        ),
        !(spec_is_datelike(start) && spec_is_datelike(end)) ==> r == (start, end),
{
    if is_datelike(&start) && is_datelike(&end) {
        let s2 = apply_tag_date(start, start_tag_date);
        let e2 = apply_tag_date(end, end_tag_date);
        (s2, e2)
    } else {
        (start, end)
    }
}

/// Finishes resolution of two concrete dates: the range must run forwards,
/// and a commit-domain search asks for the dates' nightly commits.
pub open spec fn spec_resolve_dates(start: GitDate, end: GitDate, by_commit: bool) -> Result<
    BoundsRequest,
    BoundError,
> {
    if end.day_index() < start.day_index() {
        Err(BoundError::EndBeforeStart { start, end })
    } else if by_commit {
        Ok(BoundsRequest::NeedShas { start, end })
    } else {
        Ok(BoundsRequest::Done(Bounds::Dates { start, end }))
    }
}

/// What bound resolution answers for each shape of input, with `r` the
/// answer: the whole decision table of the resolver.
pub open spec fn from_args_spec(
    start: Option<Bound>,
    end: Option<Bound>,
    by_commit: bool,
    today: GitDate,
    r: Result<BoundsRequest, BoundError>,
) -> bool {
    match (start, end) {
        (None, None) => r == Ok::<_, BoundError>(BoundsRequest::NeedInstalledOrLatest),
        (Some(Bound::Commit(s)), Some(Bound::Commit(e))) => r == Ok::<_, BoundError>(
            BoundsRequest::Done(Bounds::Commits { start: s, end: e }),
        ),
        (Some(Bound::Commit(s)), None) => match r {
            Ok(BoundsRequest::Done(Bounds::Commits { start: s2, end: e2 })) => s2 == s && e2@
                == "origin/master"@,
            _ => false,
        },
        (None, Some(Bound::Commit(e))) => match r {
            Ok(BoundsRequest::Done(Bounds::Commits { start: s2, end: e2 })) => s2@
                == EPOCH_COMMIT@ && e2 == e,
            _ => false,
        },
        (Some(Bound::Date(s)), Some(Bound::Date(e))) => if today.day_index() < s.day_index() {
            r == Err::<BoundsRequest, _>(BoundError::StartInFuture { start: s, today })
        } else if today.day_index() < e.day_index() {
            r == Err::<BoundsRequest, _>(BoundError::EndInFuture { end: e, today })
        } else {
            r == spec_resolve_dates(s, e, by_commit)
        },
        (Some(Bound::Date(s)), None) => if today.day_index() < s.day_index() {
            r == Err::<BoundsRequest, _>(BoundError::StartInFuture { start: s, today })
        } else {
            r == Ok::<_, BoundError>(BoundsRequest::NeedLatestEnd { start: s })
        },
        (None, Some(Bound::Date(e))) => if today.day_index() < e.day_index() {
            r == Err::<BoundsRequest, _>(BoundError::EndInFuture { end: e, today })
        } else if by_commit {
            r == Err::<BoundsRequest, _>(BoundError::ByCommitNeedsStart)
        } else {
            r == Ok::<_, BoundError>(
                BoundsRequest::Done(Bounds::SearchNightlyBackwards { end: e }),
            )
        },
        (Some(Bound::Commit(s)), Some(Bound::Date(e))) => r == Err::<BoundsRequest, _>(
            BoundError::MixedBounds { start: Bound::Commit(s), end: Bound::Date(e) },
        ),
        (Some(Bound::Date(s)), Some(Bound::Commit(e))) => r == Err::<BoundsRequest, _>(
            BoundError::MixedBounds { start: Bound::Date(s), end: Bound::Commit(e) },
        ),
    }
}

/// Finishes resolution of two concrete dates.
pub fn resolve_dates(start: GitDate, end: GitDate, by_commit: bool) -> (r: Result<
    BoundsRequest,
    BoundError,
>)
    requires
        start.wf(),
        end.wf(),
    ensures
        r == spec_resolve_dates(start, end, by_commit),
{
    if end.lt(&start) {
        Err(BoundError::EndBeforeStart { start, end })
    } else if by_commit {
        Ok(BoundsRequest::NeedShas { start, end })
    } else {
        Ok(BoundsRequest::Done(Bounds::Dates { start, end }))
    }
}

/// Normalizes the two bounds (tags already translated) into a search domain:
/// dates in the future are rejected, a reversed range is rejected, missing
/// bounds fall back to defaults that the caller is asked to fetch.
pub fn from_args(
    start: Option<Bound>,
    end: Option<Bound>,
    by_commit: bool,
    today: GitDate,
) -> (r: Result<BoundsRequest, BoundError>)
    requires
        opt_bound_wf(start),
        opt_bound_wf(end),
        today.wf(),
    ensures
        from_args_spec(start, end, by_commit, today, r),
{
    match (start, end) {
        (None, None) => Ok(BoundsRequest::NeedInstalledOrLatest),
        (Some(Bound::Commit(s)), Some(Bound::Commit(e))) => Ok(
            BoundsRequest::Done(Bounds::Commits { start: s, end: e }),
        ),
        (Some(Bound::Commit(s)), None) => Ok(
            BoundsRequest::Done(
                Bounds::Commits { start: s, end: String::from_str("origin/master") },
            ),
        ),
        (None, Some(Bound::Commit(e))) => Ok(
            BoundsRequest::Done(Bounds::Commits { start: String::from_str(EPOCH_COMMIT), end: e }),
        ),
        (Some(Bound::Date(s)), Some(Bound::Date(e))) => {
            if today.lt(&s) {
                Err(BoundError::StartInFuture { start: s, today })
            } else if today.lt(&e) {
                Err(BoundError::EndInFuture { end: e, today })
            } else {
                resolve_dates(s, e, by_commit)
            }
        },
        (Some(Bound::Date(s)), None) => {
            if today.lt(&s) {
                Err(BoundError::StartInFuture { start: s, today })
            } else {
                Ok(BoundsRequest::NeedLatestEnd { start: s })
            }
        },
        (None, Some(Bound::Date(e))) => {
            if today.lt(&e) {
                Err(BoundError::EndInFuture { end: e, today })
            } else if by_commit {
                Err(BoundError::ByCommitNeedsStart)
            } else {
                Ok(BoundsRequest::Done(Bounds::SearchNightlyBackwards { end: e }))
            }
        },
        (Some(s), Some(e)) => Err(BoundError::MixedBounds { start: s, end: e }),
    }
}

/// Law: bound resolution is idempotent on already-normalized bounds.  A date
/// range that resolution has accepted passes tag translation unchanged and
/// resolves to exactly itself again.
pub proof fn lemma_resolution_idempotent(
    s: GitDate,
    e: GitDate,
    today: GitDate,
    start_tag_date: Option<GitDate>,
    end_tag_date: Option<GitDate>,
)
    requires
        s.day_index() <= today.day_index(),
        e.day_index() <= today.day_index(),
        s.day_index() <= e.day_index(),
    ensures
        spec_tag_applied(Some(Bound::Date(s)), start_tag_date) == Some(Bound::Date(s)),
        spec_tag_applied(Some(Bound::Date(e)), end_tag_date) == Some(Bound::Date(e)),
        from_args_spec(
            Some(Bound::Date(s)),
            Some(Bound::Date(e)),
            false,
            today,
            Ok(BoundsRequest::Done(Bounds::Dates { start: s, end: e })),
        ),
{
}

impl BoundError {
    /// The diagnostic shown to the user; a reversed range names both dates.
    pub fn message(&self) -> (r: String)
        requires
            match *self {
                BoundError::StartInFuture { start, today } => start.wf() && today.wf(),
                BoundError::EndInFuture { end, today } => end.wf() && today.wf(),
                BoundError::EndBeforeStart { start, end } => start.wf() && end.wf(),
                BoundError::MixedBounds { start, end } => start.wf() && end.wf(),
                BoundError::ByCommitNeedsStart => true,
            },
        ensures
            match *self {
                BoundError::StartInFuture { start, today } => r@
                    == "start date should be on or before current date, got "@
                    + spec_yyyy_mm_dd(start) + " and current date is "@ + spec_yyyy_mm_dd(today),
                BoundError::EndInFuture { end, today } => r@
                    == "end date should be on or before current date, got "@ + spec_yyyy_mm_dd(end)
                    + " and current date is "@ + spec_yyyy_mm_dd(today),
                BoundError::EndBeforeStart { start, end } => r@
                    == "end should be after start, got start: "@ + spec_yyyy_mm_dd(start)
                    + " and end "@ + spec_yyyy_mm_dd(end),
                BoundError::MixedBounds { start, end } => r@
                    == "cannot take different types of bounds for start/end, got start: "@
                    + spec_bound_text(start) + " and end "@ + spec_bound_text(end),
                BoundError::ByCommitNeedsStart => r@
                    == "--by-commit with an end date requires --start to be specified"@,
            },
    {
        match self {
            BoundError::StartInFuture { start, today } => {
                let mut m = String::from_str("start date should be on or before current date, got ");
                m.append(start.format_yyyy_mm_dd().as_str());
                m.append(" and current date is ");
                m.append(today.format_yyyy_mm_dd().as_str());
                m
            },
            BoundError::EndInFuture { end, today } => {
                let mut m = String::from_str("end date should be on or before current date, got ");
                m.append(end.format_yyyy_mm_dd().as_str());
                m.append(" and current date is ");
                m.append(today.format_yyyy_mm_dd().as_str());
                m
            },
            BoundError::EndBeforeStart { start, end } => {
                let mut m = String::from_str("end should be after start, got start: ");
                m.append(start.format_yyyy_mm_dd().as_str());
                m.append(" and end ");
                m.append(end.format_yyyy_mm_dd().as_str());
                m
            },
            BoundError::MixedBounds { start, end } => {
                let mut m = String::from_str(
                    "cannot take different types of bounds for start/end, got start: ",
                );
                m.append(bound_text(start).as_str());
                m.append(" and end ");
                m.append(bound_text(end).as_str());
                m
            },
            BoundError::ByCommitNeedsStart => {
                String::from_str("--by-commit with an end date requires --start to be specified")
            },
        }
    }
}

} // verus!
