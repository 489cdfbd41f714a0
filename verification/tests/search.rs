use bisector::least_satisfying::Satisfies::{No, Unknown, Yes};
use bisector::least_satisfying::{least_satisfying, midpoint_stable, Satisfies};
use bisector::orchestrator::linear_search_first_yes;

#[test]
fn least_satisfying_1() {
    assert_eq!(least_satisfying(&[No, Unknown, Unknown, No, Yes], 0), 4);
}

#[test]
fn least_satisfying_2() {
    assert_eq!(least_satisfying(&[No, Unknown, Yes, Unknown, Yes], 0), 2);
}

#[test]
fn least_satisfying_3() {
    assert_eq!(least_satisfying(&[No, No, No, No, Yes], 0), 4);
}

#[test]
fn least_satisfying_4() {
    assert_eq!(least_satisfying(&[No, No, Yes, Yes, Yes], 0), 2);
}

#[test]
fn least_satisfying_5() {
    assert_eq!(least_satisfying(&[No, Yes, Yes, Yes, Yes], 0), 1);
}

#[test]
fn least_satisfying_6() {
    assert_eq!(
        least_satisfying(&[No, Yes, Yes, Unknown, Unknown, Yes, Unknown, Yes], 0),
        1
    );
}

#[test]
fn least_satisfying_7() {
    assert_eq!(least_satisfying(&[No, Yes, Unknown, Yes], 0), 1);
}

#[test]
fn least_satisfying_8() {
    assert_eq!(
        least_satisfying(&[No, Unknown, No, No, Unknown, Yes, Yes], 0),
        5
    );
}

#[test]
fn least_satisfying_9() {
    assert_eq!(least_satisfying(&[No, Unknown, Yes], 0), 2);
}

#[test]
fn midpoint_test() {
    assert_eq!(midpoint_stable(1, 3), 2);
    assert_eq!(midpoint_stable(3, 6), 4);
    assert_eq!(midpoint_stable(1, 5), 4);
    assert_eq!(midpoint_stable(2, 5), 4);
    assert_eq!(midpoint_stable(4, 7), 6);
    assert_eq!(midpoint_stable(8, 13), 12);
    assert_eq!(midpoint_stable(8, 16), 12);

    assert_eq!(midpoint_stable(25, 27), 26);
    assert_eq!(midpoint_stable(25, 28), 26);
    assert_eq!(midpoint_stable(25, 29), 28);
    assert_eq!(midpoint_stable(33, 65), 64);
}

#[test]
fn single_element_terminates_at_final_index() {
    // one non-unknown element between the endpoints, refuting at both ends:
    // the search ends through its adjacent-endpoints termination
    assert_eq!(least_satisfying(&[No, No, Yes], 0), 2);
}

#[test]
fn search_with_offset_finds_same_index() {
    assert_eq!(least_satisfying(&[No, No, Yes, Yes, Yes], 7), 2);
    assert_eq!(least_satisfying(&[No, Unknown, Unknown, No, Yes], 31), 4);
}

#[test]
fn msg_with_context_picks_label() {
    assert_eq!(Yes.msg_with_context("old", "new"), "new");
    assert_eq!(No.msg_with_context("old", "new"), "old");
    assert_eq!(
        Unknown.msg_with_context("old", "new"),
        "Unable to figure out if the condition matched"
    );
}

#[test]
fn satisfies_from_option() {
    assert_eq!(Satisfies::from(Some(true)), Yes);
    assert_eq!(Satisfies::from(Some(false)), No);
    let missing: Option<bool> = None;
    assert_eq!(Satisfies::from(missing), Unknown);
}

#[test]
fn linear_scan_stops_at_first_satisfying() {
    let verdicts = vec![No, Unknown, Yes, No, Yes];
    assert_eq!(linear_search_first_yes(5, |i| verdicts[i]), Some(2));
    let none = vec![No, Unknown, No];
    assert_eq!(linear_search_first_yes(3, |i| none[i]), None);
}
