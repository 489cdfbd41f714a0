//! Reading the timer bot's rollup comment: the markdown table rows that name
//! one perf build (a commit) per rolled-up pull request.

use vstd::prelude::*;
use vstd::string::StrSliceExecFns;
use vstd::string::StringExecFns;
use crate::text::{contains_str, find_char_from, find_from, seq_contains, starts_with, views_of};

verus! {

/// A hexadecimal digit in either case.
pub open spec fn is_hex_char(c: char) -> bool {
    ('0' <= c && c <= '9') || ('a' <= c && c <= 'f') || ('A' <= c && c <= 'F')
}

/// Forty hexadecimal characters begin at `i`.
pub open spec fn hex40_at(l: Seq<char>, i: int) -> bool {
    0 <= i && i + 40 <= l.len() && forall|t: int| i <= t < i + 40 ==> is_hex_char(#[trigger] l[t])
}

/// Where the last forty-character hexadecimal run of a left-to-right,
/// non-overlapping scan from `i` starts, or -1.  The last run is preferred
/// so that hexadecimal look-alikes in a title column are not mistaken for
/// the commit, which sits in a later column.
pub open spec fn last_hex40_from(l: Seq<char>, i: int) -> int
    decreases l.len() - i,
{
    if i < 0 || i + 40 > l.len() {
        -1
    } else if hex40_at(l, i) {
        let rest = last_hex40_from(l, i + 40);
        if rest >= 0 {
            rest
        } else {
            i
        }
    } else {
        last_hex40_from(l, i + 1)
    }
}

fn is_hex_char_x(c: char) -> (r: bool)
    ensures
        r == is_hex_char(c),
{
    ('0' <= c && c <= '9') || ('a' <= c && c <= 'f') || ('A' <= c && c <= 'F')
}

fn hex40_at_x(l: &str, i: usize) -> (r: bool)
    requires
        i + 40 <= l@.len(),
    ensures
        r == hex40_at(l@, i as int),
{
    let n = l.unicode_len();
    let mut j: usize = 0;
    while j < 40
        invariant
            j <= 40,
            n == l@.len(),
            i + 40 <= n,
            forall|t: int| i <= t < i + j ==> is_hex_char(#[trigger] l@[t]),
        decreases 40 - j,
    {
        if !is_hex_char_x(l.get_char(i + j)) {
            return false;
        }
        j = j + 1;
    }
    true
}

/// Finds the start of the last forty-character hexadecimal run.
fn last_hex40(l: &str) -> (r: Option<usize>)
    ensures
        match r {
            Some(i) => last_hex40_from(l@, 0) == i,
            None => last_hex40_from(l@, 0) == -1,
        },
{
    let n = l.unicode_len();
    if n < 40 {
        return None;
    }
    let mut i: usize = 0;
    let mut found: Option<usize> = None;
    proof {
        lemma_last_hex40_range(l@, 0);
    }
    while i <= n - 40
        invariant
            n == l@.len(),
            40 <= n,
            i <= n,
            last_hex40_from(l@, 0) == (if last_hex40_from(l@, i as int) >= 0 {
                last_hex40_from(l@, i as int)
            } else {
                match found {
                    Some(f) => f as int,
                    None => -1int,
                }
            }),
        decreases n - i,
    {
        proof {
            lemma_last_hex40_range(l@, i as int);
            lemma_last_hex40_range(l@, i + 40);
            lemma_last_hex40_range(l@, i + 1);
        }
        if hex40_at_x(l, i) {
            found = Some(i);
            i = i + 40;
        } else {
            i = i + 1;
        }
    }
    found
}

/// The commit a table row names: its last forty-character hexadecimal run.
pub open spec fn spec_line_sha(l: Seq<char>) -> Option<Seq<char>> {
    let i = last_hex40_from(l, 0);
    if i < 0 {
        None
    } else {
        Some(l.subrange(i, i + 40))
    }
}

/// The context a table row gives for its commit: the pull-request number in
/// the first column and, when a second column exists and is not merely the
/// commit again, its text as the title.
pub open spec fn spec_line_description(l: Seq<char>) -> Seq<char> {
    let j = find_from(l, '|', 1);
    if j < 0 {
        l.subrange(1, l.len() as int)
    } else {
        let pr = l.subrange(1, j);
        let k = find_from(l, '|', j + 1);
        let title = if k < 0 {
            l.subrange(j + 1, l.len() as int)
        } else {
            l.subrange(j + 1, k)
        };
        match spec_line_sha(l) {
            Some(sha) => if seq_contains(title, sha) {
                pr
            } else {
                pr + ": "@ + title
            },
            None => pr,
        }
    }
}

proof fn lemma_find_from_range(s: Seq<char>, c: char, i: int)
    ensures
        find_from(s, c, i) == -1 || i <= find_from(s, c, i) < s.len(),
    decreases s.len() - i,
{
    if i < 0 || i >= s.len() {
    } else if s[i] == c {
    } else {
        lemma_find_from_range(s, c, i + 1);
    }
}

/// How far into the run scan every found run lies.
proof fn lemma_last_hex40_range(l: Seq<char>, i: int)
    ensures
        last_hex40_from(l, i) == -1 || (i <= last_hex40_from(l, i) && last_hex40_from(l, i) + 40
            <= l.len()),
    decreases l.len() - i,
{
    if i < 0 || i + 40 > l.len() {
    } else if hex40_at(l, i) {
        lemma_last_hex40_range(l, i + 40);
    } else {
        lemma_last_hex40_range(l, i + 1);
    }
}

/// A line with its trailing carriage return removed.
pub open spec fn strip_cr(l: Seq<char>) -> Seq<char> {
    if l.len() > 0 && l.last() == '\r' {
        l.drop_last()
    } else {
        l
    }
}

/// The lines of a text: split at each line feed, trailing carriage returns
/// removed.
pub open spec fn spec_split_lines(s: Seq<char>) -> Seq<Seq<char>>
    decreases s.len(),
    via spec_split_lines_dec
{
    if s.len() == 0 {
        Seq::empty()
    } else {
        let i = find_from(s, '\n', 0);
        if i < 0 {
            seq![strip_cr(s)]
        } else {
            seq![strip_cr(s.subrange(0, i))] + spec_split_lines(s.subrange(i + 1, s.len() as int))
        }
    }
}

#[via_fn]
proof fn spec_split_lines_dec(s: Seq<char>) {
    lemma_find_from_range(s, '\n', 0);
}

fn strip_cr_x(l: &str) -> (r: String)
    ensures
        r@ == strip_cr(l@),
{
    let n = l.unicode_len();
    if n > 0 && l.get_char(n - 1) == '\r' {
        proof {
            assert(l@.subrange(0, n - 1) =~= l@.drop_last());
        }
        l.substring_char(0, n - 1).to_owned()
    } else {
        l.to_owned()
    }
}

/// Splits a text into its lines.
fn split_lines(s: &str) -> (r: Vec<String>)
    ensures
        views_of(r@) == spec_split_lines(s@),
    decreases s@.len(),
{
    let n = s.unicode_len();
    if n == 0 {
        let r: Vec<String> = Vec::new();
        proof {
            assert(views_of(r@) =~= spec_split_lines(s@));
        }
        return r;
    }
    match find_char_from(s, '\n', 0) {
        None => {
            let mut r: Vec<String> = Vec::new();
            r.push(strip_cr_x(s));
            proof {
                assert(views_of(r@) =~= spec_split_lines(s@));
            }
            r
        },
        Some(i) => {
            let first = strip_cr_x(s.substring_char(0, i));
            let rest = s.substring_char(i + 1, n);
            let mut r: Vec<String> = Vec::new();
            r.push(first);
            let mut tail = split_lines(rest);
            r.append(&mut tail);
            proof {
                assert(views_of(r@) =~= spec_split_lines(s@));
            }
            r
        },
    }
}

/// The commits of all perf-build rows, in table order.
pub open spec fn spec_perf_shas(lines: Seq<Seq<char>>) -> Seq<Seq<char>>
    decreases lines.len(),
{
    if lines.len() == 0 {
        Seq::empty()
    } else {
        spec_perf_shas(lines.drop_last()) + ({
            let l = lines.last();
            if "|#"@.is_prefix_of(l) {
                match spec_line_sha(l) {
                    Some(sha) => seq![sha],
                    None => Seq::<Seq<char>>::empty(),
                }
            } else {
                Seq::<Seq<char>>::empty()
            }
        })
    }
}

/// The descriptions of all perf-build rows, in table order.
pub open spec fn spec_perf_descriptions(lines: Seq<Seq<char>>) -> Seq<Seq<char>>
    decreases lines.len(),
{
    if lines.len() == 0 {
        Seq::empty()
    } else {
        spec_perf_descriptions(lines.drop_last()) + ({
            let l = lines.last();
            if "|#"@.is_prefix_of(l) && spec_line_sha(l) is Some {
                seq![spec_line_description(l)]
            } else {
                Seq::<Seq<char>>::empty()
            }
        })
    }
}

/// An in-order mapping from perf-build commit to its description.
pub struct PerfBuildsContext {
    pub builds: Vec<String>,
    pub descriptions: Vec<String>,
}

fn line_description(l: &str, sha: &str) -> (r: String)
    requires
        l@.len() >= 1,
        spec_line_sha(l@) == Some(sha@),
    ensures
        r@ == spec_line_description(l@),
{
    let n = l.unicode_len();
    match find_char_from(l, '|', 1) {
        None => l.substring_char(1, n).to_owned(),
        Some(j) => {
            let pr = l.substring_char(1, j);
            let title = match find_char_from(l, '|', j + 1) {
                None => l.substring_char(j + 1, n),
                Some(k) => l.substring_char(j + 1, k),
            };
            if contains_str(title, sha) {
                pr.to_owned()
            } else {
                let mut d = pr.to_owned();
                d.append(": ");
                d.append(title);
                d
            }
        },
    }
}

/// Extracts the perf builds the timer bot posted for a rollup: each table
/// row beginning `|#` yields the commit its last forty-character hexadecimal
/// run names, together with the rolled-up pull request's number and title,
/// for use when the build itself has since been garbage-collected.
pub fn extract_perf_builds(body: &str) -> (r: PerfBuildsContext)
    ensures
        views_of(r.builds@) == spec_perf_shas(spec_split_lines(body@)),
        views_of(r.descriptions@) == spec_perf_descriptions(spec_split_lines(body@)),
{
    let lines = split_lines(body);
    let ghost lv = views_of(lines@);
    let mut builds: Vec<String> = Vec::new();
    let mut descriptions: Vec<String> = Vec::new();
    let mut i: usize = 0;
    while i < lines.len()
        invariant
            lv == views_of(lines@),
            i <= lines@.len(),
            views_of(builds@) == spec_perf_shas(lv.subrange(0, i as int)),
            views_of(descriptions@) == spec_perf_descriptions(lv.subrange(0, i as int)),
        decreases lines@.len() - i,
    {
        proof {
            assert(lv.subrange(0, i + 1).drop_last() =~= lv.subrange(0, i as int));
            assert(lv.subrange(0, i + 1).last() == lv[i as int]);
            assert(lv[i as int] == lines@[i as int]@);
        }
        let l = &lines[i];
        if starts_with(l.as_str(), "|#") {
            let ln = l.as_str().unicode_len();
            match last_hex40(l.as_str()) {
                Some(si) => {
                    proof {
                        lemma_last_hex40_range(l@, 0);
                        reveal_strlit("|#");
                        assert(l@.len() >= 2);
                    }
                    let sha = l.as_str().substring_char(si, si + 40);
                    let desc = line_description(l.as_str(), sha);
                    builds.push(sha.to_owned());
                    descriptions.push(desc);
                },
                None => {},
            }
        }
        proof {
            assert(views_of(builds@) =~= spec_perf_shas(lv.subrange(0, i + 1)));
            assert(views_of(descriptions@) =~= spec_perf_descriptions(lv.subrange(0, i + 1)));
        }
        i = i + 1;
    }
    proof {
        assert(lv.subrange(0, lv.len() as int) =~= lv);
    }
    PerfBuildsContext { builds, descriptions }
}

/// Whether a merge commit's message marks it as a rollup whose perf builds
/// are worth searching: it opens like an automatic merge and announces a
/// rollup.
pub fn is_rollup_summary(summary: &str) -> (r: bool)
    ensures
        r == ("Auto merge of #"@.is_prefix_of(summary@) && seq_contains(summary@, "Rollup of"@)),
{
    starts_with(summary, "Auto merge of #") && contains_str(summary, "Rollup of")
}

/// The pull-request number a rollup merge message names: what stands
/// between the opening `Auto merge of #` and the next space.
pub fn rollup_pr_number(summary: &str) -> (r: Option<String>)
    ensures
        match r {
            Some(n) => "Auto merge of #"@.is_prefix_of(summary@) && ({
                let e = find_from(summary@, ' ', 15);
                n@ == summary@.subrange(
                    15,
                    if e < 0 {
                        summary@.len() as int
                    } else {
                        e
                    },
                )
            }),
            None => !"Auto merge of #"@.is_prefix_of(summary@),
        },
{
    if !starts_with(summary, "Auto merge of #") {
        return None;
    }
    let n = summary.unicode_len();
    proof {
        reveal_strlit("Auto merge of #");
    }
    let end = match find_char_from(summary, ' ', 15) {
        Some(e) => e,
        None => n,
    };
    Some(summary.substring_char(15, end).to_owned())
}

/// Whether this comment is the timer bot's perf-builds table.
pub fn is_perf_comment(login: &str, comment_body: &str) -> (r: bool)
    ensures
        r == (login@ == "rust-timer"@ && seq_contains(
            comment_body@,
            "Perf builds for each rolled up PR"@,
        )),
{
    crate::text::str_eq(login, "rust-timer") && contains_str(
        comment_body,
        "Perf builds for each rolled up PR",
    )
}

} // verus!
