use bisector::commits::{
    check_commit_sequence, commit_from_parts, is_by_bors, is_chronological,
    parse_iso_datetime_date, retain_recent, Author, Commit, HistoryError, BORS_AUTHOR,
};
use bisector::dates::GitDate;
use bisector::least_satisfying::Satisfies;
use bisector::orchestrator::{
    ci_toolchains, epoch_date, searched_range, toolchains_between, NightlyWalk, WalkError,
    WalkEvent, WalkStatus,
};
use bisector::bounds::Bounds;
use bisector::toolchains::ToolchainSpec;

fn d(y: u16, m: u8, day: u8) -> GitDate {
    GitDate::from_ymd_opt(y, m, day).unwrap()
}

fn commit(sha: &str, date: GitDate) -> Commit {
    Commit {
        sha: sha.to_string(),
        date,
        summary: "Auto merge of #1 - branch, r=user".to_string(),
        committer: Author {
            name: BORS_AUTHOR.to_string(),
            email: "bors@rust-lang.org".to_string(),
            date,
        },
    }
}

#[test]
fn committer_admission() {
    let good = commit("aaaa", d(2022, 5, 4));
    assert!(is_by_bors(&good));
    let mut bad = good.clone();
    bad.committer.name = "someone".to_string();
    assert!(!is_by_bors(&bad));
}

#[test]
fn chronology_check() {
    let seq = vec![
        commit("a", d(2022, 5, 1)),
        commit("b", d(2022, 5, 1)),
        commit("c", d(2022, 5, 3)),
    ];
    assert!(is_chronological(&seq));
    let bad = vec![commit("a", d(2022, 5, 2)), commit("b", d(2022, 5, 1))];
    assert!(!is_chronological(&bad));
}

#[test]
fn sequence_admission_errors() {
    let empty: Vec<Commit> = Vec::new();
    assert_eq!(
        check_commit_sequence(&empty, "abcd"),
        Err(HistoryError::EmptyRange)
    );
    let seq = vec![commit("aaaa1111", d(2022, 5, 1)), commit("bbbb2222", d(2022, 5, 2))];
    assert_eq!(check_commit_sequence(&seq, "bbbb"), Ok(()));
    assert_eq!(
        check_commit_sequence(&seq, "cccc"),
        Err(HistoryError::WrongEndCommit)
    );
    let unsorted = vec![commit("aaaa1111", d(2022, 5, 2)), commit("bbbb2222", d(2022, 5, 1))];
    assert_eq!(
        check_commit_sequence(&unsorted, "bbbb"),
        Err(HistoryError::NotChronological)
    );
}

#[test]
fn retention_window_is_167_days() {
    let today = d(2023, 7, 1);
    let mut commits = vec![
        commit("old", today.sub_days(200).unwrap()),
        commit("edge", today.sub_days(167).unwrap()),
        commit("kept", today.sub_days(166).unwrap()),
        commit("new", today),
    ];
    retain_recent(&mut commits, today);
    let shas: Vec<&str> = commits.iter().map(|c| c.sha.as_str()).collect();
    assert_eq!(shas, vec!["kept", "new"]);
}

#[test]
fn iso_datetime_date_part() {
    assert_eq!(
        parse_iso_datetime_date("2022-05-04T09:55:51Z"),
        Some(d(2022, 5, 4))
    );
    assert_eq!(parse_iso_datetime_date("2022-05-04"), None);
    assert_eq!(parse_iso_datetime_date("not-a-dateTstill-not"), None);
}

#[test]
fn commit_assembly_from_parts() {
    let c = commit_from_parts(
        "25674202bb7415e0c0ecd07856749cfb7f591be6".to_string(),
        "bors".to_string(),
        "bors@rust-lang.org".to_string(),
        "2022-05-04T09:55:51Z",
        "Auto merge of #96695".to_string(),
    )
    .unwrap();
    assert_eq!(c.sha, "25674202bb7415e0c0ecd07856749cfb7f591be6");
    assert_eq!(c.date, d(2022, 5, 4));
    assert_eq!(c.committer.name, "bors");
    assert_eq!(c.committer.email, "bors@rust-lang.org");
    assert!(commit_from_parts(
        "a".to_string(),
        "b".to_string(),
        "c".to_string(),
        "bad",
        "d".to_string()
    )
    .is_none());
}

#[test]
fn nightly_range_is_one_per_day() {
    let host = "x86_64-unknown-linux-gnu".to_string();
    let ts = toolchains_between(d(2019, 1, 30), d(2019, 2, 2), &host, &host);
    assert_eq!(ts.len(), 4);
    let dates: Vec<String> = ts
        .iter()
        .map(|t| match &t.spec {
            ToolchainSpec::Nightly { date } => date.format_yyyy_mm_dd(),
            ToolchainSpec::Ci { .. } => panic!("expected a nightly"),
        })
        .collect();
    assert_eq!(dates, vec!["2019-01-30", "2019-01-31", "2019-02-01", "2019-02-02"]);
    assert_eq!(toolchains_between(d(2019, 2, 2), d(2019, 1, 30), &host, &host).len(), 0);
}

#[test]
fn ci_range_follows_commits() {
    let host = "x86_64-unknown-linux-gnu".to_string();
    let commits = vec![commit("aaaa", d(2022, 5, 1)), commit("bbbb", d(2022, 5, 2))];
    let ts = ci_toolchains(&commits, true, &host, &host);
    assert_eq!(ts.len(), 2);
    match &ts[0].spec {
        ToolchainSpec::Ci { commit, alt } => {
            assert_eq!(commit, "aaaa");
            assert!(*alt);
        }
        ToolchainSpec::Nightly { .. } => panic!("expected a CI build"),
    }
}

#[test]
fn backwards_walk_finds_passing_nightly() {
    // end 2019-01-01 regresses; the walk strides back two days at a time
    // and the nightly of 2018-12-26 passes
    let end = d(2019, 1, 1);
    let (mut walk, status) = NightlyWalk::new(end, end, false);
    let mut date = match status {
        WalkStatus::Test(t) => t,
        _ => panic!("expected a first probe"),
    };
    let passing = d(2018, 12, 26);
    let mut steps = 0;
    loop {
        let event = if date == passing {
            WalkEvent::TestedBaseline
        } else {
            WalkEvent::TestedRegressed
        };
        match walk.step(event) {
            WalkStatus::Test(t) => {
                date = t;
                steps += 1;
                assert!(steps < 20);
            }
            WalkStatus::Found { first_success, last_failure } => {
                assert_eq!(first_success, passing);
                assert_eq!(last_failure, d(2018, 12, 28));
                return;
            }
            WalkStatus::Failed(_) => panic!("the walk should find the passing nightly"),
        }
    }
}

#[test]
fn walk_slips_a_day_on_missing_nightly() {
    let (mut walk, status) = NightlyWalk::new(d(2019, 1, 1), d(2019, 1, 1), false);
    match status {
        WalkStatus::Test(t) => assert_eq!(t, d(2019, 1, 1)),
        _ => panic!("expected a first probe"),
    }
    match walk.step(WalkEvent::NotFound) {
        WalkStatus::Test(t) => assert_eq!(t, d(2018, 12, 31)),
        _ => panic!("expected a slipped probe"),
    }
}

#[test]
fn walk_errors_on_explicit_start() {
    let (mut walk, _) = NightlyWalk::new(d(2019, 1, 1), d(2019, 1, 1), true);
    assert!(matches!(
        walk.step(WalkEvent::TestedRegressed),
        WalkStatus::Failed(WalkError::StartHasRegression)
    ));
    let (mut walk2, _) = NightlyWalk::new(d(2019, 1, 1), d(2019, 1, 1), true);
    assert!(matches!(
        walk2.step(WalkEvent::NotFound),
        WalkStatus::Failed(WalkError::StartNotFound)
    ));
}

#[test]
fn walk_stops_at_pre_artifact_epoch() {
    let (_, status) = NightlyWalk::new(d(2015, 10, 20), d(2015, 10, 20), false);
    assert!(matches!(status, WalkStatus::Failed(WalkError::NoPassingNightly)));
    assert_eq!(epoch_date(), d(2015, 10, 20));
}

#[test]
fn searched_range_reports_full_date_bounds() {
    let bounds = Bounds::Dates { start: d(2019, 1, 1), end: d(2019, 2, 1) };
    let first = ToolchainSpec::Nightly { date: d(2019, 1, 20) };
    let last = ToolchainSpec::Nightly { date: d(2019, 1, 28) };
    let (a, b) = searched_range(&bounds, first, last);
    assert!(matches!(a, ToolchainSpec::Nightly { date } if date == d(2019, 1, 1)));
    assert!(matches!(b, ToolchainSpec::Nightly { date } if date == d(2019, 2, 1)));
    let ci_first = ToolchainSpec::Ci { commit: "aaaa".to_string(), alt: false };
    let ci_last = ToolchainSpec::Ci { commit: "bbbb".to_string(), alt: false };
    let (a2, b2) = searched_range(&bounds, ci_first, ci_last);
    assert!(matches!(a2, ToolchainSpec::Ci { ref commit, .. } if commit == "aaaa"));
    assert!(matches!(b2, ToolchainSpec::Ci { ref commit, .. } if commit == "bbbb"));
}
