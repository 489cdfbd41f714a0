use bisector::least_satisfying::Satisfies;
use bisector::orchestrator::{verify_endpoints, VerifyError};
use bisector::perf::{extract_perf_builds, is_perf_comment, is_rollup_summary, rollup_pr_number};
use bisector::runner::{
    classify_run, default_term_new, default_term_old, interpret_choice, outcome_of,
    prompt_default_choice, satisfies_of_outcome, saw_ice, PromptChoice, RegressOn, TestOutcome,
};

// Ensure the first version of the comment posted by the perf-bot works
#[test]
fn test_perf_builds_v1_format() {
    // Body extracted from a v1 comment
    let body = "ðŸ“Œ Perf builds for each rolled up PR:

|PR# | Perf Build Sha|
|----|:-----:|
|#113009|[05b07dad146a6d43ead9bcd1e8bc10cbd017a5f5](https://github.com/rust-lang-ci/rust/commit/05b07dad146a6d43ead9bcd1e8bc10cbd017a5f5)|
|#113008|[581913b6789370def5158093b799baa6d4d875eb](https://github.com/rust-lang-ci/rust/commit/581913b6789370def5158093b799baa6d4d875eb)|
|#112956|[e294bd3827eb2e878167329648f3c8178ef344e7](https://github.com/rust-lang-ci/rust/commit/e294bd3827eb2e878167329648f3c8178ef344e7)|
|#112950|[0ed6ba504649ca1cb2672572b4ab41acfb06c86c](https://github.com/rust-lang-ci/rust/commit/0ed6ba504649ca1cb2672572b4ab41acfb06c86c)|
|#112937|[18e108ab85b78e6966c5b5bdadfd5b8efeadf080](https://github.com/rust-lang-ci/rust/commit/18e108ab85b78e6966c5b5bdadfd5b8efeadf080)|


*previous master*: [f7ca9df695](https://github.com/rust-lang-ci/rust/commit/f7ca9df69549470541fbf542f87a03eb9ed024b6)

In the case of a perf regression, run the following command for each PR you suspect might be the cause: `@rust-timer build $SHA`
<!-- rust-timer: rollup -->";
    let context = extract_perf_builds(body);
    assert_eq!(
        vec![
            "05b07dad146a6d43ead9bcd1e8bc10cbd017a5f5",
            "581913b6789370def5158093b799baa6d4d875eb",
            "e294bd3827eb2e878167329648f3c8178ef344e7",
            "0ed6ba504649ca1cb2672572b4ab41acfb06c86c",
            "18e108ab85b78e6966c5b5bdadfd5b8efeadf080",
        ],
        context.builds,
    );
    assert_eq!(
        vec!["#113009", "#113008", "#112956", "#112950", "#112937",],
        context.descriptions,
    );
}

// Ensure the second version of the comment posted by the perf-bot works
#[test]
fn test_perf_builds_v2_format() {
    // Body extracted from a v2 comment
    let body = "ðŸ“Œ Perf builds for each rolled up PR:

| PR# | Message | Perf Build Sha |
|----|----|:-----:|
|#112207|Add trustzone and virtualization target features for aarch3â€¦|`bbec6d6e413aa144c8b9346da27a0f2af299cbeb` ([link](https://github.com/rust-lang-ci/rust/commit/bbec6d6e413aa144c8b9346da27a0f2af299cbeb))|
|#112454|Make compiletest aware of targets without dynamic linking|`70b67c09ead52f4582471650202b1a189821ed5f` ([link](https://github.com/rust-lang-ci/rust/commit/70b67c09ead52f4582471650202b1a189821ed5f))|
|#112628|Allow comparing `Box`es with different allocators|`3043f4e577f41565443f38a6a16b7a1a08b063ad` ([link](https://github.com/rust-lang-ci/rust/commit/3043f4e577f41565443f38a6a16b7a1a08b063ad))|
|#112692|Provide more context for `rustc +nightly -Zunstable-optionsâ€¦|`4ab6f33fd50237b105999cc6d32d85cce5dad61a` ([link](https://github.com/rust-lang-ci/rust/commit/4ab6f33fd50237b105999cc6d32d85cce5dad61a))|
|#112972|Make `UnwindAction::Continue` explicit in MIR dump|`e1df9e306054655d7d41ec1ad75ade5d76a6888d` ([link](https://github.com/rust-lang-ci/rust/commit/e1df9e306054655d7d41ec1ad75ade5d76a6888d))|
|#113020|Add tests impl via obj unless denied|`affe009b94eba41777cf02997b1780e50445d6af` ([link](https://github.com/rust-lang-ci/rust/commit/affe009b94eba41777cf02997b1780e50445d6af))|
|#113084|Simplify some conditions|`0ce4618dbf5810aabb389edd4950c060b6b4d049` ([link](https://github.com/rust-lang-ci/rust/commit/0ce4618dbf5810aabb389edd4950c060b6b4d049))|
|#113103|Normalize types when applying uninhabited predicate.|`241cd8cd818cdc865cdf02f0c32a40081420b772` ([link](https://github.com/rust-lang-ci/rust/commit/241cd8cd818cdc865cdf02f0c32a40081420b772))|


*previous master*: [5ea6668646](https://github.com/rust-lang-ci/rust/commit/5ea66686467d3ec5f8c81570e7f0f16ad8dd8cc3)

In the case of a perf regression, run the following command for each PR you suspect might be the cause: `@rust-timer build $SHA`
<!-- rust-timer: rollup -->";
    let context = extract_perf_builds(body);
    assert_eq!(
        vec![
            "bbec6d6e413aa144c8b9346da27a0f2af299cbeb",
            "70b67c09ead52f4582471650202b1a189821ed5f",
            "3043f4e577f41565443f38a6a16b7a1a08b063ad",
            "4ab6f33fd50237b105999cc6d32d85cce5dad61a",
            "e1df9e306054655d7d41ec1ad75ade5d76a6888d",
            "affe009b94eba41777cf02997b1780e50445d6af",
            "0ce4618dbf5810aabb389edd4950c060b6b4d049",
            "241cd8cd818cdc865cdf02f0c32a40081420b772",
        ],
        context.builds,
    );
    assert_eq!(
        vec![
            "#112207: Add trustzone and virtualization target features for aarch3â€¦",
            "#112454: Make compiletest aware of targets without dynamic linking",
            "#112628: Allow comparing `Box`es with different allocators",
            "#112692: Provide more context for `rustc +nightly -Zunstable-optionsâ€¦",
            "#112972: Make `UnwindAction::Continue` explicit in MIR dump",
            "#113020: Add tests impl via obj unless denied",
            "#113084: Simplify some conditions",
            "#113103: Normalize types when applying uninhabited predicate.",
        ],
        context.descriptions,
    );
}

#[test]
fn rollup_detection() {
    let summary = "Auto merge of #113105 - matthiaskrgr:rollup-jkkas0l, r=matthiaskrgr\n\nRollup of 8 pull requests";
    assert!(is_rollup_summary(summary));
    assert!(!is_rollup_summary("Auto merge of #96695 - JohnTitor:fix, r=JohnTitor"));
    assert!(!is_rollup_summary("Rollup of 8 pull requests"));
    assert_eq!(rollup_pr_number(summary), Some("113105".to_string()));
    assert_eq!(rollup_pr_number("Auto merge of #42"), Some("42".to_string()));
    assert_eq!(rollup_pr_number("something else"), None);
}

#[test]
fn perf_comment_detection() {
    assert!(is_perf_comment(
        "rust-timer",
        "Perf builds for each rolled up PR: see the table"
    ));
    assert!(!is_perf_comment("bors", "Perf builds for each rolled up PR"));
    assert!(!is_perf_comment("rust-timer", "finished benchmarking"));
}

#[test]
fn ice_markers_found_in_diagnostics() {
    assert!(saw_ice("error: internal compiler error: unexpected panic"));
    assert!(saw_ice("thread 'rustc' has overflowed its stack"));
    assert!(saw_ice("error: the compiler unexpectedly panicked. this is a bug."));
    assert!(!saw_ice("error[E0308]: mismatched types"));
    assert!(!saw_ice(""));
}

#[test]
fn outcome_table() {
    let ice = "error: internal compiler error: oops";
    // error: regressed iff exit failure
    assert_eq!(outcome_of(RegressOn::Error, true, ""), TestOutcome::Baseline);
    assert_eq!(outcome_of(RegressOn::Error, false, ""), TestOutcome::Regressed);
    // success: regressed iff exit success
    assert_eq!(outcome_of(RegressOn::Success, true, ""), TestOutcome::Regressed);
    assert_eq!(outcome_of(RegressOn::Success, false, ""), TestOutcome::Baseline);
    // ice: regressed iff the diagnostics show an internal error
    assert_eq!(outcome_of(RegressOn::Ice, false, ice), TestOutcome::Regressed);
    assert_eq!(outcome_of(RegressOn::Ice, false, ""), TestOutcome::Baseline);
    assert_eq!(outcome_of(RegressOn::Ice, true, ""), TestOutcome::Baseline);
    // non-ice: the other way around
    assert_eq!(outcome_of(RegressOn::NonIce, false, ice), TestOutcome::Baseline);
    assert_eq!(outcome_of(RegressOn::NonIce, false, ""), TestOutcome::Regressed);
    // non-error: regressed on success or on an internal error
    assert_eq!(outcome_of(RegressOn::NonError, true, ""), TestOutcome::Regressed);
    assert_eq!(outcome_of(RegressOn::NonError, false, ice), TestOutcome::Regressed);
    assert_eq!(outcome_of(RegressOn::NonError, false, ""), TestOutcome::Baseline);
}

#[test]
fn stderr_capture_policy() {
    assert!(!RegressOn::Error.must_process_stderr());
    assert!(!RegressOn::Success.must_process_stderr());
    assert!(RegressOn::Ice.must_process_stderr());
    assert!(RegressOn::NonIce.must_process_stderr());
    assert!(RegressOn::NonError.must_process_stderr());
}

#[test]
fn timeout_expiry_counts_as_regressed() {
    assert_eq!(
        classify_run(RegressOn::Error, true, Some(124), false, ""),
        TestOutcome::Regressed
    );
    assert_eq!(
        classify_run(RegressOn::Error, true, Some(1), false, ""),
        TestOutcome::Regressed
    );
    assert_eq!(
        classify_run(RegressOn::Error, false, Some(0), true, ""),
        TestOutcome::Baseline
    );
}

#[test]
fn outcome_to_verdict() {
    assert_eq!(satisfies_of_outcome(TestOutcome::Regressed), Satisfies::Yes);
    assert_eq!(satisfies_of_outcome(TestOutcome::Baseline), Satisfies::No);
}

#[test]
fn prompt_choices() {
    assert_eq!(prompt_default_choice(TestOutcome::Regressed), 0);
    assert_eq!(prompt_default_choice(TestOutcome::Baseline), 1);
    assert_eq!(interpret_choice(0), PromptChoice::MarkRegressed);
    assert_eq!(interpret_choice(1), PromptChoice::MarkBaseline);
    assert_eq!(interpret_choice(2), PromptChoice::Retry);
}

#[test]
fn default_labels() {
    assert_eq!(default_term_old(false, RegressOn::Error), "Successfully compiled");
    assert_eq!(default_term_new(false, RegressOn::Error), "Compile error");
    assert_eq!(default_term_old(true, RegressOn::Ice), "Script did not ICE");
    assert_eq!(default_term_new(true, RegressOn::NonError), "Script returned success or ICE");
}

#[test]
fn both_endpoints_baseline_is_a_verification_error() {
    // no regression in range: the end must reproduce the regression
    assert_eq!(
        verify_endpoints(Some(Satisfies::No), Satisfies::No),
        Err(VerifyError::EndNotRegressed)
    );
    assert_eq!(
        verify_endpoints(Some(Satisfies::Yes), Satisfies::Yes),
        Err(VerifyError::StartHasRegression)
    );
    assert_eq!(verify_endpoints(None, Satisfies::Yes), Ok(()));
    assert_eq!(verify_endpoints(Some(Satisfies::No), Satisfies::Yes), Ok(()));
}
