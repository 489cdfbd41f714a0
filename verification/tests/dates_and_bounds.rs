use bisector::bounds::{
    from_args, resolve_dates, translate_tags, Bound, BoundError, Bounds, BoundsRequest,
    EPOCH_COMMIT,
};
use bisector::dates::{parse_to_utc_date, today, GitDate};
use bisector::orchestrator::NightlyFinderIter;

fn d(y: u16, m: u8, day: u8) -> GitDate {
    GitDate::from_ymd_opt(y, m, day).unwrap()
}

#[test]
fn test_nightly_finder_iterator() {
    let start_date = d(2019, 1, 1);
    let mut iter = NightlyFinderIter::new(start_date);
    for offset in [2u32, 4, 6, 8, 15, 22, 29, 36, 43, 50, 64, 78] {
        let got = iter.next().unwrap();
        assert_eq!(start_date.sub_days(offset).unwrap(), got);
    }
}

#[test]
fn date_format_round_trip() {
    let date = d(2019, 1, 5);
    let text = date.format_yyyy_mm_dd();
    assert_eq!(text, "2019-01-05");
    assert_eq!(parse_to_utc_date(&text), Some(date));
}

#[test]
fn date_parse_rejects_malformed() {
    assert_eq!(parse_to_utc_date("2022-13-01"), None);
    assert_eq!(parse_to_utc_date("2022-02-30"), None);
    assert_eq!(parse_to_utc_date("abcdefghij"), None);
    assert_eq!(parse_to_utc_date("2022-05-04T09:55:51Z"), None);
    assert_eq!(parse_to_utc_date("2024-02-29"), Some(d(2024, 2, 29)));
    assert_eq!(parse_to_utc_date("2023-02-29"), None);
}

#[test]
fn day_number_of_epochs() {
    // days from year zero to the Unix epoch
    assert_eq!(d(1970, 1, 1).day_number(), 719528);
    assert_eq!(d(1970, 1, 2).day_number(), 719529);
    assert_eq!(d(2016, 2, 29).day_number(), d(2016, 3, 1).day_number() - 1);
}

#[test]
fn date_stepping() {
    assert_eq!(d(2019, 12, 31).succ_opt(), Some(d(2020, 1, 1)));
    assert_eq!(d(2020, 3, 1).pred_opt(), Some(d(2020, 2, 29)));
    assert_eq!(d(2019, 1, 15).sub_days(14), Some(d(2019, 1, 1)));
}

#[test]
fn today_is_a_calendar_day() {
    let t = today();
    let text = t.format_yyyy_mm_dd();
    assert_eq!(text.len(), 10);
    assert_eq!(parse_to_utc_date(&text), Some(t));
}

#[test]
fn end_date_equal_to_today_accepted() {
    let now = d(2022, 5, 4);
    let r = from_args(
        Some(Bound::Date(d(2022, 5, 1))),
        Some(Bound::Date(now)),
        false,
        now,
    );
    assert!(matches!(
        r,
        Ok(BoundsRequest::Done(Bounds::Dates { .. }))
    ));
}

#[test]
fn end_date_in_future_rejected() {
    let now = d(2022, 5, 4);
    let r = from_args(
        Some(Bound::Date(d(2022, 5, 1))),
        Some(Bound::Date(d(2022, 5, 5))),
        false,
        now,
    );
    assert!(matches!(r, Err(BoundError::EndInFuture { .. })));
}

#[test]
fn start_after_end_rejected_naming_both() {
    let now = d(2022, 5, 4);
    let r = from_args(
        Some(Bound::Date(d(2022, 1, 5))),
        Some(Bound::Date(d(2022, 1, 4))),
        false,
        now,
    );
    match r {
        Err(e @ BoundError::EndBeforeStart { .. }) => {
            assert_eq!(
                e.message(),
                "end should be after start, got start: 2022-01-05 and end 2022-01-04"
            );
        }
        _ => panic!("expected a reversed-range error"),
    }
}

#[test]
fn tag_start_with_date_end_resolves_tag() {
    let start = Some(Bound::Commit("1.62.0".to_string()));
    let end = Some(Bound::Date(d(2022, 7, 1)));
    let tag_date = d(2022, 5, 18);
    let (s2, e2) = translate_tags(start, end, Some(tag_date), None);
    assert!(matches!(s2, Some(Bound::Date(dd)) if dd == tag_date));
    assert!(matches!(e2, Some(Bound::Date(dd)) if dd == d(2022, 7, 1)));
}

#[test]
fn commit_start_with_tag_end_left_alone() {
    let start = Some(Bound::Commit("6a1c0637ce44aeea6c60527f4c0e7fb33f2bcd0d".to_string()));
    let end = Some(Bound::Commit("1.62.0".to_string()));
    let (s2, e2) = translate_tags(start, end, None, Some(d(2022, 5, 18)));
    assert!(
        matches!(&s2, Some(Bound::Commit(c)) if c == "6a1c0637ce44aeea6c60527f4c0e7fb33f2bcd0d")
    );
    assert!(matches!(&e2, Some(Bound::Commit(c)) if c == "1.62.0"));
}

#[test]
fn missing_bounds_ask_for_defaults() {
    let now = d(2022, 5, 4);
    assert!(matches!(
        from_args(None, None, false, now),
        Ok(BoundsRequest::NeedInstalledOrLatest)
    ));
    assert!(matches!(
        from_args(Some(Bound::Date(d(2022, 1, 1))), None, false, now),
        Ok(BoundsRequest::NeedLatestEnd { .. })
    ));
    match from_args(None, Some(Bound::Commit("abc123".to_string())), false, now) {
        Ok(BoundsRequest::Done(Bounds::Commits { start, end })) => {
            assert_eq!(start, EPOCH_COMMIT);
            assert_eq!(end, "abc123");
        }
        _ => panic!("expected an epoch-to-commit range"),
    }
    match from_args(Some(Bound::Commit("abc123".to_string())), None, false, now) {
        Ok(BoundsRequest::Done(Bounds::Commits { start, end })) => {
            assert_eq!(start, "abc123");
            assert_eq!(end, "origin/master");
        }
        _ => panic!("expected a commit-to-head range"),
    }
}

#[test]
fn mixed_bounds_rejected_naming_both() {
    let now = d(2022, 5, 4);
    let r = from_args(
        Some(Bound::Commit("6a1c0637ce44aeea6c60527f4c0e7fb33f2bcd0d".to_string())),
        Some(Bound::Date(d(2022, 1, 1))),
        false,
        now,
    );
    match r {
        Err(e @ BoundError::MixedBounds { .. }) => {
            assert_eq!(
                e.message(),
                "cannot take different types of bounds for start/end, got start: \
                 6a1c0637ce44aeea6c60527f4c0e7fb33f2bcd0d and end 2022-01-01"
            );
        }
        _ => panic!("expected a mixed-bounds error"),
    }
}

#[test]
fn by_commit_promotes_dates_and_needs_start() {
    let now = d(2022, 5, 4);
    let r = from_args(
        Some(Bound::Date(d(2022, 1, 1))),
        Some(Bound::Date(d(2022, 2, 1))),
        true,
        now,
    );
    assert!(matches!(r, Ok(BoundsRequest::NeedShas { .. })));
    let r2 = from_args(None, Some(Bound::Date(d(2022, 2, 1))), true, now);
    assert!(matches!(r2, Err(BoundError::ByCommitNeedsStart)));
}

#[test]
fn backwards_search_from_end_date() {
    let now = d(2022, 5, 4);
    let r = from_args(None, Some(Bound::Date(d(2022, 2, 1))), false, now);
    assert!(matches!(
        r,
        Ok(BoundsRequest::Done(Bounds::SearchNightlyBackwards { end })) if end == d(2022, 2, 1)
    ));
}

#[test]
fn resolve_dates_orders_range() {
    let r = resolve_dates(d(2022, 1, 5), d(2022, 1, 4), false);
    assert!(matches!(r, Err(BoundError::EndBeforeStart { .. })));
    let r2 = resolve_dates(d(2022, 1, 4), d(2022, 1, 5), true);
    assert!(matches!(r2, Ok(BoundsRequest::NeedShas { .. })));
}

#[test]
fn bound_from_str_classifies() {
    assert!(matches!(Bound::from_str("2022-05-04"), Bound::Date(dd) if dd == d(2022, 5, 4)));
    assert!(matches!(Bound::from_str("1.62.0"), Bound::Commit(c) if c == "1.62.0"));
    assert!(
        matches!(Bound::from_str("6a1c0637"), Bound::Commit(c) if c == "6a1c0637")
    );
}
