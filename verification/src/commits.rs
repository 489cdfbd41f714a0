//! The commit records the history accessors hand back, and the checks that
//! admit them into a search sequence.

use vstd::prelude::*;
use vstd::string::StrSliceExecFns;
use crate::dates::{spec_parse_ymd, GitDate};
use crate::text::{find_from, find_char_from, starts_with, str_eq};

verus! {

/// The user name under which the project's merge bot commits; only its
/// merge commits carry continuous-integration artifacts.
pub const BORS_AUTHOR: &'static str = "bors";

/// Who committed, and when.
#[derive(Debug, Clone, PartialEq)]
pub struct Author {
    pub name: String,
    pub email: String,
    pub date: GitDate,
}

/// One commit of the project's history.
#[derive(Debug, Clone, PartialEq)]
pub struct Commit {
    pub sha: String,
    pub date: GitDate,
    pub summary: String,
    pub committer: Author,
}

pub open spec fn commits_wf(s: Seq<Commit>) -> bool {
    forall|i: int| 0 <= i < s.len() ==> (#[trigger] s[i]).date.wf()
}

/// The author dates never step backwards.
pub open spec fn spec_chronological(s: Seq<Commit>) -> bool {
    forall|i: int| 0 < i < s.len() ==> s[i - 1].date.day_index() <= (#[trigger] s[i]).date.day_index()
}

/// Whether the sequence is in non-decreasing date order.
pub fn is_chronological(commits: &Vec<Commit>) -> (r: bool)
    requires
        commits_wf(commits@),
    ensures
        r == spec_chronological(commits@),
{
    let n = commits.len();
    let mut i: usize = 1;
    while i < n
        invariant
            1 <= i,
            n == commits@.len(),
            commits_wf(commits@),
            forall|t: int| 0 < t < i ==> commits@[t - 1].date.day_index() <= (#[trigger] commits@[t]).date.day_index(),
        decreases n - i,
    {
        let prev = commits[i - 1].date.day_number();
        let cur = commits[i].date.day_number();
        if prev > cur {
            return false;
        }
        i = i + 1;
    }
    true
}

/// Whether the merge bot committed this commit; the admission check for a
/// point of the search sequence.
pub fn is_by_bors(c: &Commit) -> (r: bool)
    ensures
        r == (c.committer.name@ == BORS_AUTHOR@),
{
    str_eq(c.committer.name.as_str(), BORS_AUTHOR)
}

/// Why a fetched commit sequence cannot be searched.
#[derive(Clone, Copy, Debug, PartialEq, Eq, Structural)]
pub enum HistoryError {
    /// No commits in the range.
    EmptyRange,
    /// The fetched sequence does not end at the requested end commit.
    WrongEndCommit,
    /// The author dates step backwards somewhere.
    NotChronological,
    /// A boundary commit was not committed by the merge bot.
    NotByBot,
}

/// Admits a fetched sequence into the search: it must be non-empty, end at
/// the requested end commit, and run in non-decreasing date order.
pub fn check_commit_sequence(commits: &Vec<Commit>, end_sha: &str) -> (r: Result<
    (),
    HistoryError,
>)
    requires
        commits_wf(commits@),
    ensures
        r is Ok <==> commits@.len() > 0 && end_sha@.is_prefix_of(
            commits@.last().sha@,
        ) && spec_chronological(commits@),
        r == Err::<(), _>(HistoryError::EmptyRange) <==> commits@.len() == 0,
        r == Err::<(), _>(HistoryError::WrongEndCommit) <==> commits@.len() > 0
            && !end_sha@.is_prefix_of(commits@.last().sha@),
        r == Err::<(), _>(HistoryError::NotChronological) <==> commits@.len() > 0
            && end_sha@.is_prefix_of(commits@.last().sha@) && !spec_chronological(commits@),
{
    if commits.len() == 0 {
        return Err(HistoryError::EmptyRange);
    }
    let last = &commits[commits.len() - 1];
    if !starts_with(last.sha.as_str(), end_sha) {
        return Err(HistoryError::WrongEndCommit);
    }
    if !is_chronological(commits) {
        return Err(HistoryError::NotChronological);
    }
    Ok(())
}

/// How many days the store retains a continuous-integration artifact.
pub const RETENTION_WINDOW_DAYS: u32 = 167;

/// The commits whose artifacts are still retained: dated within the
/// retention window before today.
pub open spec fn spec_recent(c: Commit, today: GitDate) -> bool {
    today.day_index() - c.date.day_index() < RETENTION_WINDOW_DAYS
}

pub open spec fn spec_retained(s: Seq<Commit>, today: GitDate) -> Seq<Commit>
    decreases s.len(),
{
    if s.len() == 0 {
        Seq::empty()
    } else {
        spec_retained(s.drop_last(), today) + if spec_recent(s.last(), today) {
            seq![s.last()]
        } else {
            Seq::<Commit>::empty()
        }
    }
}

/// Drops the commits whose artifacts have aged out of retention.
pub fn retain_recent(commits: &mut Vec<Commit>, today: GitDate)
    requires
        today.wf(),
        commits_wf(old(commits)@),
    ensures
        final(commits)@ == spec_retained(old(commits)@, today),
{
    let ghost orig = commits@;
    let ghost mut k: int = 0;
    let mut i: usize = 0;
    let td = today.day_number();
    while i < commits.len()
        invariant
            today.wf(),
            commits_wf(orig),
            0 <= k <= orig.len(),
            i == spec_retained(orig.subrange(0, k), today).len(),
            commits@ == spec_retained(orig.subrange(0, k), today) + orig.subrange(
                k,
                orig.len() as int,
            ),
            td == today.day_index(),
        decreases orig.len() - k,
    {
        proof {
            assert(orig.subrange(0, k + 1).drop_last() =~= orig.subrange(0, k));
            assert(orig.subrange(0, k + 1).last() == orig[k]);
            assert(commits@[i as int] == orig[k]);
        }
        let cd = commits[i].date.day_number();
        if td < cd + RETENTION_WINDOW_DAYS {
            proof {
                assert(commits@ =~= spec_retained(orig.subrange(0, k + 1), today) + orig.subrange(
                    k + 1,
                    orig.len() as int,
                ));
            }
            i = i + 1;
        } else {
            commits.remove(i);
            proof {
                assert(commits@ =~= spec_retained(orig.subrange(0, k + 1), today) + orig.subrange(
                    k + 1,
                    orig.len() as int,
                ));
            }
        }
        proof {
            k = k + 1;
        }
    }
    proof {
        assert(orig.subrange(0, k) =~= orig.subrange(0, orig.len() as int));
        assert(orig.subrange(0, orig.len() as int) =~= orig);
        assert(orig.subrange(k, orig.len() as int).len() == 0);
        assert(commits@ =~= spec_retained(orig, today));
    }
}

/// The date part of an ISO 8601 date-time such as `2022-05-04T09:55:51Z`:
/// what stands before the `T`, when it is a well-formed date.
pub fn parse_iso_datetime_date(s: &str) -> (r: Option<GitDate>)
    ensures
        r == ({
            let i = find_from(s@, 'T', 0);
            if i < 0 {
                None::<GitDate>
            } else {
                spec_parse_ymd(s@.subrange(0, i))
            }
        }),
{
    match find_char_from(s, 'T', 0) {
        None => None,
        Some(i) => {
            let prefix = s.substring_char(0, i);
            crate::dates::parse_to_utc_date(prefix)
        },
    }
}

/// Assembles a commit record from the plain fields a history backend hands
/// back; the committer's date-time must carry a well-formed date.
pub fn commit_from_parts(
    sha: String,
    name: String,
    email: String,
    date_text: &str,
    summary: String,
) -> (r: Option<Commit>)
    ensures
        match r {
            Some(c) => {
                &&& ({
                    let i = find_from(date_text@, 'T', 0);
                    i >= 0 && spec_parse_ymd(date_text@.subrange(0, i)) == Some(c.date)
                })
                &&& c.sha == sha
                &&& c.summary == summary
                &&& c.committer.name == name
                &&& c.committer.email == email
                &&& c.committer.date == c.date
                &&& c.date.wf()
            },
            None => ({
                let i = find_from(date_text@, 'T', 0);
                i < 0 || spec_parse_ymd(date_text@.subrange(0, i)) is None
            }),
        },
{
    match parse_iso_datetime_date(date_text) {
        None => None,
        Some(date) => Some(
            Commit { sha, date, summary, committer: Author { name, email, date } },
        ),
    }
}

} // verus!
